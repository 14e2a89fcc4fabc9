use personal_os::models::{
    Board, BoardRole, Card, CardFilter, CardStatus, CardVisibility, Column,
};
use personal_os::position::Container;
use personal_os::store::{Store, StoreError};

const ALICE: u128 = 1;
const BOB: u128 = 2;

fn card(id: u128, title: &str, creator: u128) -> Card {
    Card {
        id,
        title: title.to_string(),
        body: None,
        visibility: CardVisibility::Restricted,
        status: CardStatus::Open,
        start_date: None,
        end_date: None,
        due_date: None,
        owner_id: None,
        created_by: creator,
    }
}

fn board(id: u128, name: &str, owner: u128) -> Board {
    Board { id, name: name.to_string(), description: None, owner_id: owner }
}

fn column(id: u128, board_id: u128, name: &str) -> Column {
    Column { id, board_id, name: name.to_string() }
}

fn two_boards() -> Store {
    let mut store = Store::new();
    store.create_board(board(100, "Work", ALICE)).unwrap();
    store.create_board(board(101, "Home", BOB)).unwrap();
    store.create_column(column(200, 100, "Todo"), None).unwrap();
    store.create_column(column(201, 100, "Done"), None).unwrap();
    store.create_column(column(210, 101, "Chores"), None).unwrap();
    store.create_card(card(300, "Fix bug", ALICE), 200, None).unwrap();
    store.create_card(card(301, "Ship", ALICE), 200, None).unwrap();
    store.create_card(card(302, "Shared", ALICE), 201, None).unwrap();
    store.create_card(card(310, "Dishes", BOB), 210, None).unwrap();
    store
}

#[test]
fn a_board_has_exactly_one_owner() {
    let mut store = two_boards();
    assert_eq!(store.get_user_role(100, ALICE), Some(BoardRole::Owner));
    assert_eq!(store.get_user_role(100, BOB), None);
    assert_eq!(store.add_permission(100, BOB, BoardRole::Owner), Err(StoreError::OwnerFixed));
    assert_eq!(store.add_permission(100, ALICE, BoardRole::Reader), Err(StoreError::OwnerFixed));
    assert_eq!(store.add_permission(999, BOB, BoardRole::Reader), Err(StoreError::NotFound));
    assert_eq!(store.add_permission(100, BOB, BoardRole::Reader), Ok(()));
    assert_eq!(store.add_permission(100, BOB, BoardRole::Editor), Ok(()));
    assert_eq!(store.get_user_role(100, BOB), Some(BoardRole::Editor));
    assert_eq!(store.remove_permission(100, ALICE), Err(StoreError::OwnerFixed));
    assert_eq!(store.remove_permission(100, 77), Err(StoreError::NotFound));
    assert_eq!(store.remove_permission(100, BOB), Ok(()));
    assert_eq!(store.get_user_role(100, BOB), None);
    assert_eq!(store.get_user_role(100, ALICE), Some(BoardRole::Owner));
}

#[test]
fn boards_are_listed_by_how_recently_they_changed() {
    let mut store = two_boards();
    store.add_permission(101, ALICE, BoardRole::Reader).unwrap();
    assert_eq!(
        store.list_for_user(ALICE),
        vec![(101, BoardRole::Reader), (100, BoardRole::Owner)]
    );
    store.update_board(100, Some("Office"), None).unwrap();
    assert_eq!(
        store.list_for_user(ALICE),
        vec![(100, BoardRole::Owner), (101, BoardRole::Reader)]
    );
    assert_eq!(store.find_board(100).unwrap().name, "Office");
    assert_eq!(store.find_board_by_name(ALICE, "office"), Some((100, BoardRole::Owner)));
    assert_eq!(store.find_board_by_name(BOB, "office"), None);
}

#[test]
fn columns_move_within_their_board() {
    let mut store = two_boards();
    assert_eq!(store.move_column(200, 1), Ok(1));
    assert_eq!(store.column_position(200), Some(1));
    assert_eq!(store.list_columns(100), vec![201, 200]);
    assert_eq!(store.move_column(200, 2), Err(StoreError::OutOfRange));
    assert_eq!(store.move_column(999, 0), Err(StoreError::NotFound));
    assert_eq!(store.list_columns(101), vec![210]);
}

#[test]
fn a_card_moves_between_columns_and_within_one() {
    let mut store = two_boards();
    assert_eq!(store.move_card(300, 201, 0), Ok(0));
    assert_eq!(store.card_column(300), Some(201));
    assert_eq!(store.card_place(300).unwrap().position, 0);
    assert_eq!(store.list_cards(200), vec![301]);
    assert_eq!(store.list_cards(201), vec![300, 302]);
    assert_eq!(store.move_card(302, 201, 0), Ok(0));
    assert_eq!(store.list_cards(201), vec![302, 300]);
    assert_eq!(store.move_card(302, 999, 0), Err(StoreError::NotFound));
    assert_eq!(store.move_card(302, 200, 5), Err(StoreError::OutOfRange));
}

#[test]
fn deleting_a_card_closes_the_gap() {
    let mut store = two_boards();
    store.create_card(card(303, "Third", ALICE), 200, None).unwrap();
    store.create_tag(500, 100, "urgent", "#ff0000").unwrap();
    store.add_tag_to_card(300, 500).unwrap();
    store.add_tag_to_card(300, 500).unwrap();
    store.delete_card(300).unwrap();
    assert_eq!(store.list_cards(200), vec![301, 303]);
    assert_eq!(store.card_place(303).unwrap().position, 1);
    assert!(!store.has_card_tag(300, 500));
    assert_eq!(store.delete_card(300), Err(StoreError::NotFound));
}

#[test]
fn deleting_a_board_takes_what_is_on_it_and_spares_what_is_attached_elsewhere() {
    let mut store = two_boards();
    store.add_permission(100, BOB, BoardRole::Editor).unwrap();
    store.create_tag(500, 100, "urgent", "#ff0000").unwrap();
    store.create_tag(501, 101, "weekly", "#00ff00").unwrap();
    store.add_tag_to_card(300, 500).unwrap();
    store.add_tag_to_card(302, 500).unwrap();
    store.add_tag_to_card(310, 501).unwrap();
    // "Shared" lives on Work and is attached to Home as well.
    assert_eq!(store.assign_card_to_board(400, 302, 101, Some(210), None), Ok(0));
    // "Ship" is attached to Work itself only.
    assert_eq!(store.assign_card_to_board(401, 301, 100, None, None), Ok(0));

    assert_eq!(store.delete_board(100), Ok(()));

    assert!(store.find_board(100).is_none());
    assert_eq!(store.get_user_role(100, ALICE), None);
    assert_eq!(store.get_user_role(100, BOB), None);
    assert_eq!(store.list_columns(100), Vec::<u128>::new());
    assert!(store.find_column(200).is_none());
    assert!(store.find_column(201).is_none());
    assert!(store.find_tag(500).is_none());
    assert!(store.find_card(300).is_none());
    assert!(store.find_card(301).is_none());
    assert!(!store.is_card_on_board(301, 100));

    // The shared card survives, without a column, and is still on Home.
    let shared = store.find_card(302).unwrap();
    assert_eq!(shared.title, "Shared");
    assert_eq!(store.card_column(302), None);
    assert_eq!(store.card_place(302).unwrap().container, Container::Inbox(ALICE));
    assert!(store.is_card_on_board(302, 101));
    assert_eq!(store.boards_of_card(302), vec![101]);
    assert!(!store.has_card_tag(302, 500));

    // The other board is as it was.
    assert_eq!(store.get_user_role(101, BOB), Some(BoardRole::Owner));
    assert_eq!(store.list_columns(101), vec![210]);
    assert_eq!(store.list_cards(210), vec![310]);
    assert!(store.has_card_tag(310, 501));
    assert_eq!(store.delete_board(100), Err(StoreError::NotFound));
}

#[test]
fn deleting_a_column_takes_its_cards() {
    let mut store = two_boards();
    assert_eq!(store.delete_column(200), Ok(()));
    assert_eq!(store.list_columns(100), vec![201]);
    assert_eq!(store.column_position(201), Some(0));
    assert!(store.find_card(300).is_none());
    assert!(store.find_card(301).is_none());
    assert!(store.find_card(302).is_some());
    assert_eq!(store.delete_column(200), Err(StoreError::NotFound));
}

#[test]
fn a_card_is_attached_to_a_board_once() {
    let mut store = two_boards();
    assert_eq!(store.assign_card_to_board(400, 300, 101, None, None), Ok(0));
    assert_eq!(
        store.assign_card_to_board(401, 300, 101, None, None),
        Err(StoreError::AlreadyAttached)
    );
    assert_eq!(
        store.assign_card_to_board(401, 300, 101, Some(200), None),
        Err(StoreError::WrongBoard)
    );
    assert_eq!(
        store.assign_card_to_board(401, 999, 101, None, None),
        Err(StoreError::NotFound)
    );
    assert_eq!(store.assign_card_to_board(401, 301, 101, None, Some(0)), Ok(0));
    assert_eq!(store.move_card_in_board(300, 101, Some(210), 0), Ok(0));
    assert_eq!(store.remove_card_from_board(301, 101), Ok(()));
    assert_eq!(store.remove_card_from_board(301, 101), Err(StoreError::NotFound));
    assert!(store.is_card_on_board(300, 101));
    assert!(store.find_card(301).is_some());
}

#[test]
fn cards_are_listed_by_role_and_filter() {
    let mut store = two_boards();
    let mut secret = card(303, "Secret plan", ALICE);
    secret.visibility = CardVisibility::Private;
    secret.due_date = Some(10);
    let mut open = card(304, "Open day", ALICE);
    open.visibility = CardVisibility::Public;
    open.body = Some("Bring the PLAN".to_string());
    store.create_card(secret, 200, Some(0)).unwrap();
    store.create_card(open, 201, None).unwrap();
    let all = CardFilter {
        tags: None,
        query: None,
        start_date_from: None,
        start_date_to: None,
        end_date_from: None,
        end_date_to: None,
        due_date_from: None,
        due_date_to: None,
    };
    assert_eq!(
        store.list_by_board_with_filter(100, Some(BoardRole::Owner), &all),
        vec![303, 300, 301, 302, 304]
    );
    assert_eq!(
        store.list_by_board_with_filter(100, Some(BoardRole::Reader), &all),
        vec![300, 301, 302, 304]
    );
    assert_eq!(store.list_by_board_with_filter(100, None, &all), vec![304]);
    let mut plan = all.clone();
    plan.query = Some("plan".to_string());
    assert_eq!(
        store.list_by_board_with_filter(100, Some(BoardRole::Editor), &plan),
        vec![303, 304]
    );
    let mut due = all.clone();
    due.due_date_from = Some(5);
    due.due_date_to = Some(10);
    assert_eq!(store.list_by_board_with_filter(100, Some(BoardRole::Owner), &due), vec![303]);
    store.create_tag(500, 100, "urgent", "#ff0000").unwrap();
    store.add_tag_to_card(301, 500).unwrap();
    let mut tagged = all.clone();
    tagged.tags = Some(vec![500, 777]);
    assert_eq!(store.list_by_board_with_filter(100, Some(BoardRole::Owner), &tagged), vec![301]);
}

#[test]
fn the_roles_on_a_board_are_listed_in_the_order_given() {
    let mut store = two_boards();
    store.add_permission(100, BOB, BoardRole::Reader).unwrap();
    store.add_permission(100, 3, BoardRole::Editor).unwrap();
    let roles: Vec<(u128, BoardRole)> =
        store.list_permissions(100).iter().map(|p| (p.user_id, p.role)).collect();
    assert_eq!(
        roles,
        vec![(ALICE, BoardRole::Owner), (BOB, BoardRole::Reader), (3, BoardRole::Editor)]
    );
    let other: Vec<u128> = store.list_permissions(101).iter().map(|p| p.user_id).collect();
    assert_eq!(other, vec![BOB]);
    assert!(store.list_permissions(999).is_empty());
}

#[test]
fn the_tags_of_a_card_are_listed_in_the_order_put_on() {
    let mut store = two_boards();
    store.create_tag(500, 100, "urgent", "#111111").unwrap();
    store.create_tag(501, 100, "later", "#222222").unwrap();
    store.add_tag_to_card(300, 501).unwrap();
    store.add_tag_to_card(301, 500).unwrap();
    store.add_tag_to_card(300, 500).unwrap();
    assert_eq!(store.list_for_card(300), vec![501, 500]);
    assert_eq!(store.list_for_card(301), vec![500]);
    assert!(store.list_for_card(302).is_empty());
    store.remove_tag_from_card(300, 501).unwrap();
    assert_eq!(store.list_for_card(300), vec![500]);
}

#[test]
fn the_cards_attached_to_a_board_are_listed_in_the_order_attached() {
    let mut store = two_boards();
    store.assign_card_to_board(400, 302, 101, None, None).unwrap();
    store.assign_card_to_board(401, 300, 101, Some(210), Some(0)).unwrap();
    store.assign_card_to_board(402, 310, 100, None, None).unwrap();
    assert_eq!(store.list_cards_for_board(101), vec![302, 300]);
    assert_eq!(store.list_cards_for_board(100), vec![310]);
    assert_eq!(store.boards_of_card(300), vec![101]);
    store.remove_card_from_board(302, 101).unwrap();
    assert_eq!(store.list_cards_for_board(101), vec![300]);
    assert!(store.list_cards_for_board(999).is_empty());
}
