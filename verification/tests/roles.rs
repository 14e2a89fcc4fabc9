use personal_os::models::BoardRole;

#[test]
fn owner_and_editor_can_edit() {
    assert!(BoardRole::Owner.can_edit());
    assert!(BoardRole::Editor.can_edit());
    assert!(!BoardRole::Reader.can_edit());
}

#[test]
fn role_names_are_read_in_any_case() {
    assert_eq!(BoardRole::from_str("OWNER"), Ok(BoardRole::Owner));
    assert_eq!(BoardRole::from_str("Editor"), Ok(BoardRole::Editor));
    assert_eq!(BoardRole::from_str("reader"), Ok(BoardRole::Reader));
    assert_eq!(BoardRole::from_str("admin"), Err("Invalid role: admin".to_string()));
}

#[test]
fn only_the_owner_deletes_and_manages() {
    assert!(BoardRole::Owner.can_delete());
    assert!(!BoardRole::Editor.can_delete());
    assert!(!BoardRole::Reader.can_delete());
    assert!(BoardRole::Owner.can_manage_permissions());
    assert!(!BoardRole::Editor.can_manage_permissions());
    assert!(!BoardRole::Reader.can_manage_permissions());
    assert_eq!(BoardRole::Editor.to_string(), "editor");
}
