use personal_os::chat::{extract_readable_message, run_batch_with, send_message};
use personal_os::error::AppError;
use personal_os::models::{Board, Card, CardStatus, CardVisibility, Column};
use personal_os::parser::parse_llm_response;
use personal_os::store::Store;

const OWNER: u128 = 1;
const BOARD: u128 = 100;
const TO_DO: u128 = 200;
const CARD: u128 = 300;

fn small_board() -> Store {
    let mut store = Store::new();
    store
        .create_board(Board { id: BOARD, name: "Work".to_string(), description: None, owner_id: OWNER })
        .unwrap();
    store
        .create_column(Column { id: TO_DO, board_id: BOARD, name: "Todo".to_string() }, None)
        .unwrap();
    store
        .create_card(
            Card {
                id: CARD,
                title: "Fix bug".to_string(),
                body: None,
                visibility: CardVisibility::Restricted,
                status: CardStatus::Open,
                start_date: None,
                end_date: None,
                due_date: None,
                owner_id: None,
                created_by: OWNER,
            },
            TO_DO,
            None,
        )
        .unwrap();
    store
}

const CREATE_TAG: &str = r#"{"action":"create_tag","params":{"name":"urgent"},"message":"Tag made."}"#;
const ADD_TAG: &str = r#"{"action":"add_tag","params":{"card":"Fix bug","tag":"urgent"},"message":"Tag added."}"#;
const NO_ACTION: &str = r#"{"action":"no_action","params":{},"message":""}"#;

#[test]
fn a_batch_in_order_succeeds() {
    let reply = format!("First {} then {} and {}", CREATE_TAG, NO_ACTION, ADD_TAG);
    let actions = parse_llm_response(&reply);
    assert_eq!(actions.len(), 3);
    let (store, report) =
        run_batch_with(small_board(), Some(BOARD), OWNER, &actions, &vec![500, 501, 502]).ok().unwrap();
    assert_eq!(report.len(), 2);
    assert_eq!(report[0].action, "create_tag");
    assert!(report[0].success);
    assert_eq!(report[1].action, "add_tag");
    assert!(report[1].success);
    assert!(store.has_card_tag(CARD, 500));
}

#[test]
fn a_batch_out_of_order_fails_where_it_must_and_goes_on() {
    let reply = format!("{} {}", ADD_TAG, CREATE_TAG);
    let actions = parse_llm_response(&reply);
    let (store, report) =
        run_batch_with(small_board(), Some(BOARD), OWNER, &actions, &vec![500, 501]).ok().unwrap();
    assert_eq!(report.len(), 2);
    assert_eq!(report[0].action, "add_tag");
    assert!(!report[0].success);
    assert_eq!(report[0].description, "Tag 'urgent' not found");
    assert_eq!(report[1].action, "create_tag");
    assert!(report[1].success);
    assert!(store.find_tag(501).is_some());
    assert!(!store.has_card_tag(CARD, 501));
}

#[test]
fn an_identifier_in_use_ends_the_batch_with_an_error() {
    let actions = parse_llm_response(CREATE_TAG);
    let mut store = small_board();
    store.create_tag(500, BOARD, "old", "#000000").unwrap();
    let result = run_batch_with(store, Some(BOARD), OWNER, &actions, &vec![500]);
    assert!(matches!(result, Err(AppError::Internal(_))));
}

#[test]
fn a_stranger_is_turned_away() {
    let result = send_message(small_board(), BOARD, 77, CREATE_TAG);
    assert!(matches!(result, Err(AppError::Forbidden)));
}

#[test]
fn the_reply_is_made_of_the_messages() {
    let reply = format!("{} {} {}", CREATE_TAG, NO_ACTION, ADD_TAG);
    let (_, answer) = send_message(small_board(), BOARD, OWNER, &reply).ok().unwrap();
    assert_eq!(answer.response, "Tag made. Tag added.");
    assert_eq!(answer.actions_taken.len(), 2);
    assert!(answer.actions_taken[0].success);
    assert!(answer.actions_taken[1].success);
}

#[test]
fn a_reply_without_actions_is_shown_as_it_is() {
    let actions = parse_llm_response("Hello there");
    assert_eq!(extract_readable_message("Hello there", &actions), "Hello there");
    let (_, answer) = send_message(small_board(), BOARD, OWNER, "Hello there").ok().unwrap();
    assert_eq!(answer.response, "Hello there");
    assert_eq!(answer.actions_taken.len(), 0);
}

#[test]
fn raw_json_is_not_shown() {
    let raw = r#"  {"action": "broken"  "#;
    let actions = parse_llm_response(raw);
    assert_eq!(actions.len(), 0);
    assert_eq!(extract_readable_message(raw, &actions), "Processing your request...");
    let mention = r#"the "action" was not clear"#;
    assert_eq!(extract_readable_message(mention, &Vec::new()), "Processing your request...");
}
