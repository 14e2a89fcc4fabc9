use personal_os::error::AppError;
use personal_os::models::{Board, BoardRole, Card, CardStatus, CardVisibility, Column};
use personal_os::prompts::{
    build_global_system_prompt, build_system_prompt, join, BOARD_EXAMPLES, GLOBAL_EXAMPLES,
};
use personal_os::store::Store;

fn card(id: u128, title: &str) -> Card {
    Card {
        id,
        title: title.to_string(),
        body: None,
        visibility: CardVisibility::Restricted,
        status: CardStatus::Open,
        start_date: None,
        end_date: None,
        due_date: None,
        owner_id: None,
        created_by: 1,
    }
}

fn work() -> Store {
    let mut store = Store::new();
    store
        .create_board(Board { id: 100, name: "Work".to_string(), description: None, owner_id: 1 })
        .unwrap();
    store.create_column(Column { id: 200, board_id: 100, name: "Todo".to_string() }, None).unwrap();
    store.create_column(Column { id: 201, board_id: 100, name: "Done".to_string() }, None).unwrap();
    store.create_card(card(300, "a"), 200, None).unwrap();
    store.create_card(card(301, "b"), 200, None).unwrap();
    store.create_tag(500, 100, "urgent", "#ff0000").unwrap();
    store.create_tag(501, 100, "later", "#00ff00").unwrap();
    store
}

#[test]
fn texts_are_joined_with_a_separator() {
    assert_eq!(join(&vec![], ", "), "");
    assert_eq!(join(&vec!["a".to_string()], ", "), "a");
    assert_eq!(join(&vec!["a".to_string(), "b".to_string(), "c".to_string()], ", "), "a, b, c");
}

#[test]
fn the_board_prompt_describes_the_board() {
    let store = work();
    let prompt = build_system_prompt(&store, 100, Some("I like lists")).unwrap();
    let expected = format!(
        "You are a Kanban board assistant for the board \"Work\".\n\nUser context:\nI like lists\n\nYou can execute these actions by responding with JSON:\n{}\nCurrent board state:\n- Board: Work\n- Columns: Todo (2 cards), Done (0 cards)\n- Tags: urgent, later\n\nIMPORTANT: Always respond with valid JSON in the format shown above. Use \"no_action\" if the user is just asking a question or chatting.\n",
        BOARD_EXAMPLES
    );
    assert_eq!(prompt, expected);
    assert!(prompt.contains(r##""color": "#hex_color""##));
    assert_eq!(build_system_prompt(&store, 999, None), Err(AppError::NotFound));
    let bare = build_system_prompt(&store, 100, Some("")).unwrap();
    assert!(bare.starts_with("You are a Kanban board assistant for the board \"Work\".\n\nYou can"));
}

#[test]
fn the_global_prompt_lists_the_boards_of_the_user() {
    let mut store = work();
    store
        .create_board(Board { id: 101, name: "Home".to_string(), description: None, owner_id: 2 })
        .unwrap();
    store.add_permission(101, 1, BoardRole::Reader).unwrap();
    let prompt = build_global_system_prompt(&store, 1, None);
    let expected = format!(
        "You are a Kanban board assistant with access to multiple boards.\n\nYou can execute actions across any of the user's boards. Always specify the \"board\" parameter.\n\nAvailable actions:\n{}\nYour boards:\n- Home (role: reader, 0 columns: [], 0 cards, tags: [none])\n- Work (role: owner, 2 columns: [Todo, Done], 2 cards, tags: [urgent, later])\n\nIMPORTANT: Always respond with valid JSON. Always include \"board\" param for board-specific actions. Use \"no_action\" for questions.\n",
        GLOBAL_EXAMPLES
    );
    assert_eq!(prompt, expected);
    let nobody = build_global_system_prompt(&store, 9, Some("ctx"));
    assert_eq!(
        nobody,
        "You are a Kanban board assistant.\n\nUser context:\nctx\n\nYou don't have access to any boards yet. Suggest the user create a board first.\n\nRespond with JSON:\n{\"action\": \"no_action\", \"params\": {}, \"message\": \"Your response here...\"}\n"
    );
}
