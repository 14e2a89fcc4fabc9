use personal_os::error::AppError;
use personal_os::executor::{
    execute_action, execute_action_with, execute_global_action, execute_global_action_with,
};
use personal_os::models::{ActionParam, Board, BoardRole, Card, CardStatus, CardVisibility, Column, LlmAction};
use personal_os::parser::parse_llm_response;
use personal_os::position::Container;
use personal_os::resolver::TagScope;
use personal_os::store::{Store, StoreError};

const OWNER: u128 = 1;
const READER: u128 = 2;
const BOARD: u128 = 100;
const TO_DO: u128 = 200;
const DONE: u128 = 201;
const CARD: u128 = 300;

fn card(id: u128, title: &str) -> Card {
    Card {
        id,
        title: title.to_string(),
        body: None,
        visibility: CardVisibility::Restricted,
        status: CardStatus::Open,
        start_date: None,
        end_date: None,
        due_date: None,
        owner_id: None,
        created_by: OWNER,
    }
}

fn board_with_two_columns() -> Store {
    let mut store = Store::new();
    store
        .create_board(Board {
            id: BOARD,
            name: "Work".to_string(),
            description: None,
            owner_id: OWNER,
        })
        .unwrap();
    store.add_permission(BOARD, READER, BoardRole::Reader).unwrap();
    store
        .create_column(Column { id: TO_DO, board_id: BOARD, name: "Todo".to_string() }, None)
        .unwrap();
    store
        .create_column(Column { id: DONE, board_id: BOARD, name: "Done".to_string() }, None)
        .unwrap();
    store.create_card(card(CARD, "Fix bug"), TO_DO, None).unwrap();
    store
}

fn action(text: &str) -> LlmAction {
    let mut actions = parse_llm_response(text);
    assert_eq!(actions.len(), 1);
    actions.remove(0)
}

#[test]
fn move_card_puts_the_card_on_top_of_the_target_column() {
    let mut store = board_with_two_columns();
    store.create_card(card(301, "Old"), DONE, None).unwrap();
    let request = action(r#"{"action":"move_card","params":{"card_title":"Fix bug","target_column":"Done"}}"#);
    let outcome = execute_action_with(&mut store, BOARD, OWNER, &request, 999).unwrap();
    assert!(outcome.success);
    assert_eq!(outcome.action, "move_card");
    assert_eq!(outcome.description, "Moved 'Fix bug' to 'Done'");
    assert_eq!(store.card_column(CARD), Some(DONE));
    assert_eq!(store.card_place(CARD).unwrap().position, 0);
    assert_eq!(store.list_cards(TO_DO), Vec::<u128>::new());
    assert_eq!(store.list_cards(DONE), vec![CARD, 301]);
    assert_eq!(store.card_place(301).unwrap().position, 1);
}

#[test]
fn a_reader_may_not_create_a_card() {
    let mut store = board_with_two_columns();
    let request = action(r#"{"action":"create_card","params":{"column":"Todo","title":"x"},"message":"ok"}"#);
    let outcome = execute_action_with(&mut store, BOARD, READER, &request, 999).unwrap();
    assert!(!outcome.success);
    assert_eq!(outcome.action, "create_card");
    assert!(outcome.description.contains("permission"));
    assert_eq!(store.list_cards(TO_DO), vec![CARD]);
    assert!(store.find_card(999).is_none());
}

#[test]
fn create_card_appends_to_the_named_column() {
    let mut store = board_with_two_columns();
    let request = action(r#"{"action":"CreateCard","params":{"column_name":"todo","name":"Write tests","description":"soon"}}"#);
    let outcome = execute_action_with(&mut store, BOARD, OWNER, &request, 999).unwrap();
    assert!(outcome.success);
    assert_eq!(outcome.description, "Created card 'Write tests' in column 'Todo'");
    assert_eq!(store.list_cards(TO_DO), vec![CARD, 999]);
    let made = store.find_card(999).unwrap();
    assert_eq!(made.title, "Write tests");
    assert_eq!(made.body, Some("soon".to_string()));
    assert_eq!(made.visibility, CardVisibility::Restricted);
    assert_eq!(made.created_by, OWNER);
}

#[test]
fn the_first_parameter_that_says_something_wins() {
    let mut store = board_with_two_columns();
    let request = action(r#"{"action":"create_card","params":{"column":"","column_name":"Done","title":"t"}}"#);
    let outcome = execute_action_with(&mut store, BOARD, OWNER, &request, 999).unwrap();
    assert!(outcome.success);
    assert_eq!(store.list_cards(DONE), vec![999]);
}

#[test]
fn a_missing_field_is_reported_with_the_parameters() {
    let mut store = board_with_two_columns();
    let request = action(r#"{"action":"create_card","params":{"column":"Todo"}}"#);
    let outcome = execute_action_with(&mut store, BOARD, OWNER, &request, 999).unwrap();
    assert!(!outcome.success);
    assert_eq!(
        outcome.description,
        r#"Missing column or title. Received params: {"column":"Todo"}"#
    );
    assert_eq!(store.list_cards(TO_DO), vec![CARD]);
}

#[test]
fn names_that_match_nothing_are_reported() {
    let mut store = board_with_two_columns();
    let request = action(r#"{"action":"move_card","params":{"card":"Nope","to":"Done"}}"#);
    let outcome = execute_action_with(&mut store, BOARD, OWNER, &request, 999).unwrap();
    assert!(!outcome.success);
    assert_eq!(outcome.description, "Card 'Nope' not found");
    let request = action(r#"{"action":"move_card","params":{"card":"fix BUG","to":"Later"}}"#);
    let outcome = execute_action_with(&mut store, BOARD, OWNER, &request, 999).unwrap();
    assert!(!outcome.success);
    assert_eq!(outcome.description, "Column 'Later' not found");
}

#[test]
fn unknown_actions_are_reported_under_their_name() {
    let mut store = board_with_two_columns();
    let request = action(r#"{"action":"fly_away","params":{}}"#);
    let outcome = execute_action_with(&mut store, BOARD, OWNER, &request, 999).unwrap();
    assert!(!outcome.success);
    assert_eq!(outcome.action, "fly_away");
    assert_eq!(outcome.description, "Unknown action: fly_away");
}

#[test]
fn reading_actions_change_nothing() {
    let mut store = board_with_two_columns();
    let request = action(r#"{"action":"list_cards","params":{}}"#);
    let outcome = execute_action_with(&mut store, BOARD, READER, &request, 999).unwrap();
    assert!(outcome.success);
    assert_eq!(outcome.action, "list_cards");
    assert_eq!(outcome.description, "No modification made");
}

#[test]
fn of_two_cards_with_one_title_the_first_by_column_and_position_is_found() {
    let mut store = board_with_two_columns();
    store.create_card(card(301, "Twin"), DONE, None).unwrap();
    store.create_card(card(302, "twin"), TO_DO, None).unwrap();
    store.create_card(card(303, "TWIN"), TO_DO, Some(0)).unwrap();
    assert_eq!(store.find_card_by_title(BOARD, "Twin"), Some(303));
    store.delete_card(303).unwrap();
    assert_eq!(store.find_card_by_title(BOARD, "Twin"), Some(302));
    store.delete_card(302).unwrap();
    assert_eq!(store.find_card_by_title(BOARD, "Twin"), Some(301));
    store.delete_card(301).unwrap();
    assert_eq!(store.find_card_by_title(BOARD, "Twin"), None);
}

#[test]
fn a_tag_can_be_created_and_put_on_a_card() {
    let mut store = board_with_two_columns();
    let create = action(r##"{"action":"create_tag","params":{"name":"urgent","color":"#ff0000"}}"##);
    let add = action(r#"{"action":"add_tag","params":{"card_title":"Fix bug","tag_name":"Urgent"}}"#);
    let first = execute_action_with(&mut store, BOARD, OWNER, &create, 500).unwrap();
    assert!(first.success);
    assert_eq!(first.description, "Created tag 'urgent'");
    let second = execute_action_with(&mut store, BOARD, OWNER, &add, 501).unwrap();
    assert!(second.success);
    assert_eq!(second.description, "Added tag 'urgent' to 'Fix bug'");
    assert!(store.has_card_tag(CARD, 500));
    assert_eq!(store.find_tag(500).unwrap().color, "#ff0000");
}

#[test]
fn a_tag_without_colour_is_grey() {
    let mut store = board_with_two_columns();
    let create = action(r#"{"action":"create_tag","params":{"tag":"later"}}"#);
    assert!(execute_action_with(&mut store, BOARD, OWNER, &create, 500).unwrap().success);
    assert_eq!(store.find_tag(500).unwrap().color, "#6c757d");
}

#[test]
fn the_global_chat_names_its_board() {
    let mut store = board_with_two_columns();
    let missing = action(r#"{"action":"create_card","params":{"column":"Todo","title":"x"}}"#);
    let outcome = execute_global_action_with(&mut store, OWNER, &missing, 999).unwrap();
    assert!(!outcome.success);
    assert!(outcome.description.starts_with("Missing board name. Please specify which board."));
    let wrong = action(r#"{"action":"create_card","params":{"board":"Play","column":"Todo","title":"x"}}"#);
    let outcome = execute_global_action_with(&mut store, OWNER, &wrong, 999).unwrap();
    assert_eq!(outcome.description, "Board 'Play' not found");
    let denied = action(r#"{"action":"create_card","params":{"board":"work","column":"Todo","title":"x"}}"#);
    let outcome = execute_global_action_with(&mut store, READER, &denied, 999).unwrap();
    assert_eq!(outcome.description, "You don't have permission to edit board 'Work'");
    let outcome = execute_global_action_with(&mut store, OWNER, &denied, 999).unwrap();
    assert!(outcome.success);
    assert_eq!(store.list_cards(TO_DO), vec![CARD, 999]);
}

#[test]
fn a_card_moves_between_boards() {
    let mut store = board_with_two_columns();
    store
        .create_board(Board { id: 101, name: "Home".to_string(), description: None, owner_id: OWNER })
        .unwrap();
    store
        .create_column(Column { id: 210, board_id: 101, name: "Inbox".to_string() }, None)
        .unwrap();
    store.create_card(card(310, "There"), 210, None).unwrap();
    let request = action(
        r#"{"action":"move_card_cross_board","params":{"from_board":"Work","to_board":"Home","card":"Fix bug","column":"Inbox"}}"#,
    );
    let outcome = execute_global_action_with(&mut store, OWNER, &request, 999).unwrap();
    assert!(outcome.success);
    assert_eq!(
        outcome.description,
        "Moved 'Fix bug' from 'Work' to 'Home' (column 'Inbox')"
    );
    assert_eq!(store.list_cards(TO_DO), Vec::<u128>::new());
    assert_eq!(store.list_cards(210), vec![310, CARD]);
    assert_eq!(store.card_place(CARD).unwrap().container, Container::Column(210));
}

#[test]
fn a_board_is_created_in_the_global_chat() {
    let mut store = Store::new();
    let request = action(r#"{"action":"create_board","params":{"name":"Garden","desc":"plants"}}"#);
    let outcome = execute_global_action_with(&mut store, OWNER, &request, 100).unwrap();
    assert!(outcome.success);
    assert_eq!(outcome.description, "Created board 'Garden'");
    assert_eq!(store.get_user_role(100, OWNER), Some(BoardRole::Owner));
    assert_eq!(store.find_board(100).unwrap().description, Some("plants".to_string()));
}

#[test]
fn params_can_be_written_by_hand() {
    let mut store = board_with_two_columns();
    let request = LlmAction {
        action: "delete_card".to_string(),
        params: vec![ActionParam {
            key: "card".to_string(),
            raw: "\"Fix bug\"".to_string(),
            text: Some("Fix bug".to_string()),
        }],
        raw_params: r#"{"card":"Fix bug"}"#.to_string(),
        message: String::new(),
    };
    let outcome = execute_action_with(&mut store, BOARD, OWNER, &request, 999).unwrap();
    assert!(outcome.success);
    assert_eq!(outcome.description, "Deleted card 'Fix bug'");
    assert!(store.find_card(CARD).is_none());
}

#[test]
fn of_tags_that_differ_in_case_the_first_by_name_is_found() {
    let mut store = board_with_two_columns();
    store.create_tag(500, BOARD, "urgent", "#111111").unwrap();
    store.create_tag(501, BOARD, "Urgent", "#222222").unwrap();
    store.create_tag(502, BOARD, "Urgent", "#333333").unwrap();
    store.create_tag(503, BOARD, "later", "#444444").unwrap();
    assert_eq!(store.find_tag_by_name(BOARD, "URGENT"), Some(501));
    assert_eq!(store.find_tag_by_name(BOARD, "Later"), Some(503));
    assert_eq!(store.find_tag_by_name(BOARD, "never"), None);
    assert_eq!(store.find_tag_by_name(999, "urgent"), None);
    let request = action(r#"{"action":"delete_tag","params":{"tag":"urgent"}}"#);
    let outcome = execute_action_with(&mut store, BOARD, OWNER, &request, 999).unwrap();
    assert_eq!(outcome.description, "Deleted tag 'Urgent'");
    assert!(store.find_tag(501).is_none());
    assert_eq!(store.find_tag_by_name(BOARD, "urgent"), Some(502));
}

#[test]
fn a_tag_of_a_user_is_found_by_name_among_that_user_s_tags_only() {
    let mut store = board_with_two_columns();
    store.create_tag(500, BOARD, "home", "#111111").unwrap();
    store.create_global_tag(510, OWNER, "Home", "#222222").unwrap();
    store.create_global_tag(511, READER, "home", "#333333").unwrap();
    store.create_global_tag(512, OWNER, "errands", "#444444").unwrap();
    assert_eq!(store.find_user_tag_by_name(OWNER, "HOME"), Some(510));
    assert_eq!(store.find_user_tag_by_name(READER, "Home"), Some(511));
    assert_eq!(store.find_user_tag_by_name(OWNER, "Errands"), Some(512));
    assert_eq!(store.find_user_tag_by_name(READER, "errands"), None);
    assert_eq!(store.find_tag_in(TagScope::Board(BOARD), "HOME"), Some(500));
    assert_eq!(store.find_tag_in(TagScope::User(OWNER), "home"), Some(510));
    assert_eq!(store.find_tag_by_name(BOARD, "errands"), None);
}

#[test]
fn a_column_is_created_and_deleted_by_name() {
    let mut store = board_with_two_columns();
    let create = action(r#"{"action":"create_column","params":{"name":"Later"}}"#);
    let outcome = execute_action_with(&mut store, BOARD, OWNER, &create, 202).unwrap();
    assert!(outcome.success);
    assert_eq!(outcome.description, "Created column 'Later'");
    assert_eq!(store.list_columns(BOARD), vec![TO_DO, DONE, 202]);
    let delete = action(r#"{"action":"delete_column","params":{"column":"todo"}}"#);
    let outcome = execute_action_with(&mut store, BOARD, OWNER, &delete, 999).unwrap();
    assert!(outcome.success);
    assert_eq!(outcome.description, "Deleted column 'Todo'");
    assert_eq!(store.list_columns(BOARD), vec![DONE, 202]);
    assert!(store.find_card(CARD).is_none());
    let again = execute_action_with(&mut store, BOARD, OWNER, &delete, 999).unwrap();
    assert!(!again.success);
    assert_eq!(again.description, "Column 'todo' not found");
}

#[test]
fn only_the_owner_deletes_the_board_by_chat() {
    let mut store = board_with_two_columns();
    store.add_permission(BOARD, 5, BoardRole::Editor).unwrap();
    let request = action(r#"{"action":"delete_board","params":{"board":"Work"}}"#);
    let outcome = execute_action_with(&mut store, BOARD, 5, &request, 999).unwrap();
    assert!(!outcome.success);
    assert_eq!(outcome.description, "You don't have permission to delete this board");
    let outcome = execute_global_action_with(&mut store, OWNER, &request, 999).unwrap();
    assert!(outcome.success);
    assert_eq!(outcome.description, "Deleted board 'Work'");
    assert!(store.find_board(BOARD).is_none());
}

#[test]
fn actions_that_belong_to_the_global_chat_say_so() {
    let mut store = board_with_two_columns();
    for name in ["create_board", "move_card_cross_board"] {
        let request = action(&format!(r#"{{"action":"{}","params":{{}}}}"#, name));
        let outcome = execute_action_with(&mut store, BOARD, OWNER, &request, 999).unwrap();
        assert!(!outcome.success);
        assert_eq!(outcome.action, name);
        assert_eq!(outcome.description, "This action is only available in global chat");
    }
    let request = action(r#"{"action":"add_comment","params":{}}"#);
    let outcome = execute_action_with(&mut store, BOARD, OWNER, &request, 999).unwrap();
    assert_eq!(outcome.description, "This action is not available in a board chat");
    let outcome = execute_global_action_with(&mut store, OWNER, &request, 999).unwrap();
    assert_eq!(outcome.description, "This action is not available");
}

#[test]
fn cards_without_a_column_are_made_changed_and_placed_by_chat() {
    let mut store = board_with_two_columns();
    let create = action(r#"{"action":"inbox_card","params":{"title":"Call mum","body":"soon"}}"#);
    let outcome = execute_global_action_with(&mut store, READER, &create, 350).unwrap();
    assert!(outcome.success);
    assert_eq!(outcome.action, "create_inbox_card");
    assert_eq!(outcome.description, "Created inbox card 'Call mum'");
    let made = store.find_card(350).unwrap();
    assert_eq!(made.visibility, CardVisibility::Private);
    assert_eq!(made.owner_id, Some(READER));
    assert_eq!(store.card_column(350), None);

    let status = action(r#"{"action":"set_status","params":{"card":"call MUM","status":"In_Progress"}}"#);
    let outcome = execute_global_action_with(&mut store, READER, &status, 999).unwrap();
    assert!(outcome.success);
    assert_eq!(outcome.description, "Set status of 'Call mum' to 'in_progress'");
    assert_eq!(store.find_card(350).unwrap().status, CardStatus::InProgress);
    let outcome = execute_global_action_with(&mut store, OWNER, &status, 999).unwrap();
    assert_eq!(outcome.description, "Card 'call MUM' not found");
    let odd = action(r#"{"action":"set_status","params":{"card":"call mum","status":"paused"}}"#);
    let outcome = execute_global_action_with(&mut store, READER, &odd, 999).unwrap();
    assert_eq!(outcome.description, "Invalid status: paused");

    let assign = action(r#"{"action":"assign_card","params":{"card":"Call mum","board":"Work","column":"Done"}}"#);
    let outcome = execute_global_action_with(&mut store, READER, &assign, 400).unwrap();
    assert_eq!(outcome.description, "You don't have permission to edit board 'Work'");
    store.add_permission(BOARD, READER, BoardRole::Editor).unwrap();
    let outcome = execute_global_action_with(&mut store, READER, &assign, 400).unwrap();
    assert!(outcome.success);
    assert_eq!(outcome.description, "Assigned 'Call mum' to board 'Work'");
    assert!(store.is_card_on_board(350, BOARD));
    let outcome = execute_global_action_with(&mut store, READER, &assign, 401).unwrap();
    assert!(!outcome.success);
    assert_eq!(outcome.description, "Card 'Call mum' is already on board 'Work'");
}

#[test]
fn new_records_get_identifiers_of_their_own() {
    let mut store = board_with_two_columns();
    let request = action(r#"{"action":"create_card","params":{"column":"Done","title":"One more"}}"#);
    for _ in 0..3 {
        let outcome = execute_action(&mut store, BOARD, OWNER, &request).unwrap();
        assert!(outcome.success);
    }
    let made = store.list_cards(DONE);
    assert_eq!(made.len(), 3);
    assert!(made[0] != made[1] && made[1] != made[2] && made[0] != made[2]);
    let board = action(r#"{"action":"create_board","params":{"name":"Fresh"}}"#);
    assert!(execute_global_action(&mut store, OWNER, &board).unwrap().success);
    assert!(store.find_board_by_name(OWNER, "fresh").is_some());
}

#[test]
fn an_identifier_is_used_once() {
    let mut store = board_with_two_columns();
    assert_eq!(
        store.create_board(Board { id: BOARD, name: "Again".to_string(), description: None, owner_id: OWNER }),
        Err(StoreError::DuplicateId)
    );
    assert_eq!(
        store.create_column(Column { id: TO_DO, board_id: BOARD, name: "Again".to_string() }, None),
        Err(StoreError::DuplicateId)
    );
    assert_eq!(store.create_card(card(CARD, "Again"), DONE, None), Err(StoreError::DuplicateId));
    assert_eq!(store.create_card(card(301, "Lost"), 999, None), Err(StoreError::NotFound));
    let request = action(r#"{"action":"create_card","params":{"column":"Done","title":"Clash"}}"#);
    assert_eq!(
        execute_action_with(&mut store, BOARD, OWNER, &request, CARD),
        Err(AppError::Internal("Identifier already in use".to_string()))
    );
    assert_eq!(store.list_cards(DONE), Vec::<u128>::new());
}
