use personal_os::models::ChatAction;
use personal_os::parser::parse_llm_response;

#[test]
fn text_without_json_gives_no_action() {
    assert_eq!(parse_llm_response("not json at all").len(), 0);
}

#[test]
fn a_single_object_gives_one_action() {
    let actions = parse_llm_response(
        r#"{"action":"create_card","params":{"column":"Todo","title":"x"},"message":"ok"}"#,
    );
    assert_eq!(actions.len(), 1);
    assert_eq!(actions[0].action, "create_card");
    assert_eq!(ChatAction::from_str(&actions[0].action), Ok(ChatAction::CreateCard));
    assert_eq!(actions[0].message, "ok");
    assert_eq!(actions[0].param("column"), "Todo");
    assert_eq!(actions[0].param("title"), "x");
    assert_eq!(actions[0].raw_params, r#"{"column":"Todo","title":"x"}"#);
}

#[test]
fn a_fenced_block_gives_one_action() {
    let reply = "Sure!\n```json\n{\"action\": \"no_action\", \"params\": {}, \"message\": \"hi\"}\n```\nDone.";
    let actions = parse_llm_response(reply);
    assert_eq!(actions.len(), 1);
    assert_eq!(actions[0].action, "no_action");
    assert_eq!(actions[0].message, "hi");
}

#[test]
fn a_fence_that_is_never_closed_does_no_harm() {
    let reply = "```json {\"action\": \"list_tags\", \"params\": {}}";
    let actions = parse_llm_response(reply);
    assert_eq!(actions.len(), 1);
    assert_eq!(actions[0].action, "list_tags");
}

#[test]
fn objects_among_prose_are_read_from_left_to_right() {
    let reply = r#"one {"action":"a","params":{"k":{"deep":1}}} two {broken} three {"action":"b"} four {"action":"c""#;
    let actions = parse_llm_response(reply);
    assert_eq!(actions.len(), 2);
    assert_eq!(actions[0].action, "a");
    assert_eq!(actions[0].param("k"), "");
    assert_eq!(actions[0].raw_params, r#"{"k":{"deep":1}}"#);
    assert_eq!(actions[1].action, "b");
    assert_eq!(actions[1].raw_params, "null");
    assert_eq!(actions[1].message, "");
}

#[test]
fn an_object_without_an_action_is_passed_over() {
    assert_eq!(parse_llm_response(r#"{"params":{},"message":"m"}"#).len(), 0);
    assert_eq!(parse_llm_response(r#"{"action":7}"#).len(), 0);
    assert_eq!(parse_llm_response("").len(), 0);
    assert_eq!(parse_llm_response("}{").len(), 0);
}

#[test]
fn action_names_are_normalized() {
    for name in ["create_card", "CreateCard", "createcard", "CREATE_CARD"] {
        assert_eq!(ChatAction::from_str(name), Ok(ChatAction::CreateCard));
    }
    assert_eq!(ChatAction::from_str("teleport"), Ok(ChatAction::Unknown));
    assert_eq!(ChatAction::from_str("search"), Ok(ChatAction::WebSearch));
    assert_eq!(ChatAction::CreateInboxCard.to_string(), "create_inbox_card");
    assert!(ChatAction::ListCards.is_read_only());
    assert!(!ChatAction::CreateCard.is_read_only());
    assert!(ChatAction::CreateCard.requires_board());
    assert!(!ChatAction::CreateBoard.requires_board());
}
