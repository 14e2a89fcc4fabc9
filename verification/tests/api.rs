use personal_os::error::AppError;
use personal_os::handlers::auth::{validate_registration, CreateUser};
use personal_os::handlers::{boards, cards, columns, tags};
use personal_os::models::{
    BoardRole, CardFilter, CardVisibility, CreateBoard, CreateCard, CreateColumn, CreateTag,
    MoveCard, MoveColumn, UpdateBoard, UpdateCard, UpdateColumn, UpdateTag,
};
use personal_os::position::Container;
use personal_os::store::Store;

const USER: u128 = 1;

fn board(store: &mut Store, id: u128, name: &str) -> u128 {
    let input = CreateBoard { name: name.to_string(), description: None };
    boards::create_board(store, USER, id, input).unwrap()
}

fn column(store: &mut Store, board: u128, id: u128, name: &str) -> i32 {
    let input = CreateColumn { name: name.to_string(), position: None };
    columns::create_column(store, USER, board, id, input).unwrap()
}

fn card_input(title: &str, body: Option<&str>) -> CreateCard {
    CreateCard {
        title: title.to_string(),
        body: body.map(|b| b.to_string()),
        position: None,
        visibility: None,
        status: None,
        start_date: None,
        end_date: None,
        due_date: None,
    }
}

fn card(store: &mut Store, column: u128, id: u128, title: &str) -> i32 {
    cards::create_card(store, USER, column, id, card_input(title, None)).unwrap()
}

fn no_filter() -> CardFilter {
    CardFilter {
        tags: None,
        query: None,
        start_date_from: None,
        start_date_to: None,
        end_date_from: None,
        end_date_to: None,
        due_date_from: None,
        due_date_to: None,
    }
}

fn board_and_column() -> (Store, u128, u128) {
    let mut store = Store::new();
    let b = board(&mut store, 100, "Test Board");
    column(&mut store, b, 200, "To Do");
    (store, b, 200)
}

#[test]
fn test_register_missing_fields() {
    let input = CreateUser {
        email: String::new(),
        password: "password123".to_string(),
        name: "User".to_string(),
    };
    assert_eq!(validate_registration(&input).unwrap_err().status(), 422);
}

#[test]
fn test_register_short_password() {
    let input = CreateUser {
        email: "user@example.com".to_string(),
        password: "short".to_string(),
        name: "User".to_string(),
    };
    assert_eq!(validate_registration(&input).unwrap_err().status(), 422);
}

#[test]
fn test_create_board() {
    let mut store = Store::new();
    let input = CreateBoard {
        name: "Test Board".to_string(),
        description: Some("A test board".to_string()),
    };
    let id = boards::create_board(&mut store, USER, 100, input).unwrap();
    let details = boards::get_board(&store, USER, id).unwrap();
    assert_eq!(details.name, "Test Board");
    assert_eq!(details.description, Some("A test board".to_string()));
    assert_eq!(details.role.to_string(), "owner");
}

#[test]
fn test_create_board_without_description() {
    let mut store = Store::new();
    let id = board(&mut store, 100, "Minimal Board");
    assert_eq!(boards::get_board(&store, USER, id).unwrap().name, "Minimal Board");
}

#[test]
fn test_create_board_empty_name() {
    let mut store = Store::new();
    let input = CreateBoard { name: String::new(), description: None };
    let refused = boards::create_board(&mut store, USER, 100, input).unwrap_err();
    assert_eq!(refused.status(), 422);
}

#[test]
fn test_list_boards() {
    let mut store = Store::new();
    board(&mut store, 100, "Board 1");
    board(&mut store, 101, "Board 2");
    assert_eq!(boards::list_boards(&store, USER).len(), 2);
}

#[test]
fn test_get_board() {
    let mut store = Store::new();
    let id = board(&mut store, 100, "Test Board");
    let details = boards::get_board(&store, USER, id).unwrap();
    assert_eq!(details.name, "Test Board");
    assert_eq!(details.columns, Vec::<u128>::new());
    assert_eq!(details.tags, Vec::<u128>::new());
}

#[test]
fn test_update_board() {
    let mut store = Store::new();
    let id = board(&mut store, 100, "Original Name");
    let input = UpdateBoard {
        name: Some("Updated Name".to_string()),
        description: Some("New description".to_string()),
    };
    assert_eq!(boards::update_board(&mut store, USER, id, input), Ok(()));
    let details = boards::get_board(&store, USER, id).unwrap();
    assert_eq!(details.name, "Updated Name");
    assert_eq!(details.description, Some("New description".to_string()));
}

#[test]
fn test_delete_board() {
    let mut store = Store::new();
    let id = board(&mut store, 100, "Board to Delete");
    assert_eq!(boards::delete_board(&mut store, USER, id), Ok(()));
    assert_eq!(boards::get_board(&store, USER, id).unwrap_err().status(), 404);
}

#[test]
fn test_unauthorized_board_access() {
    let mut store = Store::new();
    let id = board(&mut store, 100, "Test Board");
    assert_eq!(boards::get_board(&store, 2, id), Err(AppError::Forbidden));
    assert_eq!(boards::list_boards(&store, 2), vec![]);
    assert_eq!(AppError::Unauthorized.status(), 401);
}

#[test]
fn test_create_column() {
    let mut store = Store::new();
    let b = board(&mut store, 100, "Test Board");
    assert_eq!(column(&mut store, b, 200, "To Do"), 0);
    assert_eq!(store.find_column(200).unwrap().name, "To Do");
}

#[test]
fn test_create_multiple_columns() {
    let mut store = Store::new();
    let b = board(&mut store, 100, "Test Board");
    column(&mut store, b, 200, "To Do");
    assert_eq!(column(&mut store, b, 201, "In Progress"), 1);
}

#[test]
fn test_list_columns() {
    let mut store = Store::new();
    let b = board(&mut store, 100, "Test Board");
    column(&mut store, b, 200, "Column 1");
    column(&mut store, b, 201, "Column 2");
    assert_eq!(columns::list_columns(&store, USER, b).unwrap().len(), 2);
}

#[test]
fn test_update_column() {
    let (mut store, _, col) = board_and_column();
    let input = UpdateColumn { name: Some("Updated".to_string()) };
    assert_eq!(columns::update_column(&mut store, USER, col, input), Ok(()));
    assert_eq!(store.find_column(col).unwrap().name, "Updated");
}

#[test]
fn test_delete_column() {
    let (mut store, b, col) = board_and_column();
    assert_eq!(columns::delete_column(&mut store, USER, col), Ok(()));
    assert_eq!(columns::list_columns(&store, USER, b), Ok(vec![]));
}

#[test]
fn test_move_column() {
    let mut store = Store::new();
    let b = board(&mut store, 100, "Test Board");
    column(&mut store, b, 200, "Column 1");
    column(&mut store, b, 201, "Column 2");
    assert_eq!(columns::move_column(&mut store, USER, 200, MoveColumn { position: 1 }), Ok(1));
    assert_eq!(store.column_position(200), Some(1));
    assert_eq!(store.column_position(201), Some(0));
}

#[test]
fn test_create_card() {
    let (mut store, _, col) = board_and_column();
    assert_eq!(card(&mut store, col, 300, "Test Card"), 0);
    let made = cards::get_card(&store, USER, 300).unwrap();
    assert_eq!(made.title, "Test Card");
    assert_eq!(made.visibility.to_string(), "restricted");
    assert_eq!(store.card_column(300), Some(col));
}

#[test]
fn test_create_card_with_visibility() {
    let (mut store, _, col) = board_and_column();
    let mut input = card_input("Private Card", None);
    input.visibility = Some(CardVisibility::from_str("Private").unwrap());
    cards::create_card(&mut store, USER, col, 300, input).unwrap();
    assert_eq!(cards::get_card(&store, USER, 300).unwrap().visibility.to_string(), "private");
}

#[test]
fn test_list_cards() {
    let (mut store, b, col) = board_and_column();
    card(&mut store, col, 300, "Card 1");
    card(&mut store, col, 301, "Card 2");
    assert_eq!(cards::list_cards(&store, USER, b, &no_filter()).len(), 2);
}

#[test]
fn test_get_card() {
    let (mut store, _, col) = board_and_column();
    card(&mut store, col, 300, "Card to Get");
    assert_eq!(cards::get_card(&store, USER, 300).unwrap().title, "Card to Get");
}

#[test]
fn test_update_card() {
    let (mut store, _, col) = board_and_column();
    card(&mut store, col, 300, "Original Title");
    let input = UpdateCard {
        title: Some("Updated Title".to_string()),
        body: Some("Updated body".to_string()),
        visibility: None,
        status: None,
        start_date: None,
        end_date: None,
        due_date: None,
    };
    assert_eq!(cards::update_card(&mut store, USER, 300, input), Ok(()));
    let seen = cards::get_card(&store, USER, 300).unwrap();
    assert_eq!(seen.title, "Updated Title");
    assert_eq!(seen.body, Some("Updated body".to_string()));
}

#[test]
fn test_delete_card() {
    let (mut store, _, col) = board_and_column();
    card(&mut store, col, 300, "Card to Delete");
    assert_eq!(cards::delete_card(&mut store, USER, 300), Ok(()));
    assert_eq!(cards::get_card(&store, USER, 300), Err(AppError::NotFound));
}

#[test]
fn test_move_card_between_columns() {
    let mut store = Store::new();
    let b = board(&mut store, 100, "Test Board");
    column(&mut store, b, 200, "To Do");
    column(&mut store, b, 201, "Done");
    card(&mut store, 200, 300, "Card to Move");
    let moved = cards::move_card(&mut store, USER, 300, MoveCard { column_id: 201, position: 0 });
    assert_eq!(moved, Ok(0));
    assert_eq!(store.card_column(300), Some(201));
    assert_eq!(store.card_place(300).unwrap().position, 0);
}

#[test]
fn test_move_card_within_column() {
    let (mut store, _, col) = board_and_column();
    card(&mut store, col, 300, "Card 1");
    card(&mut store, col, 301, "Card 2");
    let moved = cards::move_card(&mut store, USER, 301, MoveCard { column_id: col, position: 0 });
    assert_eq!(moved, Ok(0));
    assert_eq!(store.card_place(301).unwrap().position, 0);
    assert_eq!(store.card_place(300).unwrap().position, 1);
}

#[test]
fn test_create_tag() {
    let (mut store, b, _) = board_and_column();
    let input = CreateTag { name: "Bug".to_string(), color: Some("#ff0000".to_string()) };
    assert_eq!(tags::create_tag(&mut store, USER, b, 500, input), Ok(500));
    let made = store.find_tag(500).unwrap();
    assert_eq!(made.name, "Bug");
    assert_eq!(made.color, "#ff0000");
}

#[test]
fn test_create_tag_default_color() {
    let (mut store, b, _) = board_and_column();
    let input = CreateTag { name: "Feature".to_string(), color: None };
    tags::create_tag(&mut store, USER, b, 500, input).unwrap();
    assert_eq!(store.find_tag(500).unwrap().color, "#6c757d");
}

#[test]
fn test_list_tags() {
    let (mut store, b, _) = board_and_column();
    for (id, name) in [(500, "Tag 1"), (501, "Tag 2")] {
        let input = CreateTag { name: name.to_string(), color: None };
        tags::create_tag(&mut store, USER, b, id, input).unwrap();
    }
    assert_eq!(tags::list_tags(&store, USER, b).unwrap().len(), 2);
}

#[test]
fn test_update_tag() {
    let (mut store, b, _) = board_and_column();
    let input = CreateTag { name: "Original".to_string(), color: Some("#000000".to_string()) };
    tags::create_tag(&mut store, USER, b, 500, input).unwrap();
    let change = UpdateTag {
        name: Some("Updated".to_string()),
        color: Some("#ffffff".to_string()),
    };
    assert_eq!(tags::update_tag(&mut store, USER, 500, change), Ok(()));
    assert_eq!(store.find_tag(500).unwrap().name, "Updated");
    assert_eq!(store.find_tag(500).unwrap().color, "#ffffff");
}

#[test]
fn test_delete_tag() {
    let (mut store, b, _) = board_and_column();
    let input = CreateTag { name: "To Delete".to_string(), color: None };
    tags::create_tag(&mut store, USER, b, 500, input).unwrap();
    assert_eq!(tags::delete_tag(&mut store, USER, 500), Ok(()));
    assert_eq!(tags::list_tags(&store, USER, b), Ok(vec![]));
}

#[test]
fn test_add_tag_to_card() {
    let (mut store, b, col) = board_and_column();
    card(&mut store, col, 300, "Card");
    let input = CreateTag { name: "Tag".to_string(), color: None };
    tags::create_tag(&mut store, USER, b, 500, input).unwrap();
    assert_eq!(tags::add_tag_to_card(&mut store, USER, 300, 500), Ok(()));
    assert!(store.has_card_tag(300, 500));
}

#[test]
fn test_remove_tag_from_card() {
    let (mut store, b, col) = board_and_column();
    card(&mut store, col, 300, "Card");
    let input = CreateTag { name: "Tag".to_string(), color: None };
    tags::create_tag(&mut store, USER, b, 500, input).unwrap();
    tags::add_tag_to_card(&mut store, USER, 300, 500).unwrap();
    assert_eq!(tags::remove_tag_from_card(&mut store, USER, 300, 500), Ok(()));
    assert!(!store.has_card_tag(300, 500));
}

#[test]
fn test_full_kanban_workflow() {
    let mut store = Store::new();
    let input = CreateBoard {
        name: "Project Board".to_string(),
        description: Some("For tracking project tasks".to_string()),
    };
    let b = boards::create_board(&mut store, USER, 100, input).unwrap();
    let (todo, in_progress, done) = (200, 201, 202);
    column(&mut store, b, todo, "To Do");
    column(&mut store, b, in_progress, "In Progress");
    column(&mut store, b, done, "Done");
    for (id, name, color) in [(500, "Bug", "#dc3545"), (501, "Feature", "#28a745")] {
        let input = CreateTag { name: name.to_string(), color: Some(color.to_string()) };
        tags::create_tag(&mut store, USER, b, id, input).unwrap();
    }
    card(&mut store, todo, 300, "Fix login bug");
    card(&mut store, todo, 301, "Add dashboard");
    assert_eq!(tags::add_tag_to_card(&mut store, USER, 300, 500), Ok(()));
    assert_eq!(tags::add_tag_to_card(&mut store, USER, 301, 501), Ok(()));
    let step = MoveCard { column_id: in_progress, position: 0 };
    assert_eq!(cards::move_card(&mut store, USER, 300, step), Ok(0));
    let details = boards::get_board(&store, USER, b).unwrap();
    assert_eq!(details.columns.len(), 3);
    assert_eq!(details.tags.len(), 2);
    let step = MoveCard { column_id: done, position: 0 };
    assert_eq!(cards::move_card(&mut store, USER, 300, step), Ok(0));
    assert_eq!(store.card_column(300), Some(done));
    assert_eq!(store.card_place(301).unwrap().container, Container::Column(todo));
    assert_eq!(store.card_place(301).unwrap().position, 0);
}

#[test]
fn test_cards_list_returns_all_cards() {
    let mut store = Store::new();
    let b = board(&mut store, 100, "Filter Test Board");
    column(&mut store, b, 200, "Tasks");
    let input = CreateTag { name: "Priority".to_string(), color: None };
    tags::create_tag(&mut store, USER, b, 500, input).unwrap();
    card(&mut store, 200, 300, "Tagged Card");
    card(&mut store, 200, 301, "Untagged Card");
    tags::add_tag_to_card(&mut store, USER, 300, 500).unwrap();
    assert_eq!(cards::list_cards(&store, USER, b, &no_filter()).len(), 2);
}

#[test]
fn test_filter_cards_by_query() {
    let mut store = Store::new();
    let b = board(&mut store, 100, "Query Test Board");
    column(&mut store, b, 200, "Tasks");
    let first = card_input("Fix authentication bug", Some("Users cannot login"));
    let second = card_input("Add new feature", Some("Implement dashboard"));
    cards::create_card(&mut store, USER, 200, 300, first).unwrap();
    cards::create_card(&mut store, USER, 200, 301, second).unwrap();
    let mut filter = no_filter();
    filter.query = Some("authentication".to_string());
    let found = cards::list_cards(&store, USER, b, &filter);
    assert_eq!(found.len(), 1);
    assert_eq!(store.find_card(found[0]).unwrap().title, "Fix authentication bug");
}

#[test]
fn test_board_crud() {
    let mut store = Store::new();
    let b = board(&mut store, 100, "Integration Test Board");
    assert_eq!(boards::list_boards(&store, USER), vec![(b, BoardRole::Owner)]);
    let input = UpdateBoard { name: Some("Renamed".to_string()), description: None };
    assert_eq!(boards::update_board(&mut store, USER, b, input), Ok(()));
    assert_eq!(boards::get_board(&store, USER, b).unwrap().name, "Renamed");
    assert_eq!(boards::delete_board(&mut store, USER, b), Ok(()));
    assert_eq!(boards::list_boards(&store, USER), vec![]);
}

#[test]
fn test_card_move_between_columns() {
    let mut store = Store::new();
    let b = board(&mut store, 100, "Card Move Test Board");
    column(&mut store, b, 200, "To Do");
    column(&mut store, b, 201, "Done");
    card(&mut store, 200, 300, "Test Card");
    let step = MoveCard { column_id: 201, position: 0 };
    assert_eq!(cards::move_card(&mut store, USER, 300, step), Ok(0));
    assert_eq!(store.list_cards(200), Vec::<u128>::new());
    assert_eq!(store.list_cards(201), vec![300]);
}

#[test]
fn test_tags_on_cards() {
    let (mut store, b, col) = board_and_column();
    let input = CreateTag { name: "Important".to_string(), color: Some("#ff0000".to_string()) };
    tags::create_tag(&mut store, USER, b, 500, input).unwrap();
    card(&mut store, col, 300, "Tagged Card");
    assert_eq!(tags::add_tag_to_card(&mut store, USER, 300, 500), Ok(()));
    let mut filter = no_filter();
    filter.tags = Some(vec![500]);
    assert_eq!(cards::list_cards(&store, USER, b, &filter), vec![300]);
    assert_eq!(tags::remove_tag_from_card(&mut store, USER, 300, 500), Ok(()));
    assert_eq!(cards::list_cards(&store, USER, b, &filter), Vec::<u128>::new());
}
