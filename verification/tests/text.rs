use personal_os::access::role_can_edit;
use personal_os::error::AppError;
use personal_os::handlers::auth::{validate_registration, validate_token_request, CreateUser};
use personal_os::handlers::comments::validate_comment_body;
use personal_os::models::{CardStatus, CardVisibility, CreateApiToken, TokenScope};
use personal_os::text::{comes_before, numeral, trimmed, without_underscores};

#[test]
fn numerals_are_decimal() {
    assert_eq!(numeral(0), "0");
    assert_eq!(numeral(7), "7");
    assert_eq!(numeral(10), "10");
    assert_eq!(numeral(90210), "90210");
}

#[test]
fn texts_are_trimmed_at_both_ends() {
    assert_eq!(trimmed("  a b \n"), "a b");
    assert_eq!(trimmed("\u{a0}x\u{2003}"), "x");
    assert_eq!(trimmed(" \t "), "");
    assert_eq!(trimmed(""), "");
    assert_eq!(without_underscores("_in__progress_"), "inprogress");
}

#[test]
fn texts_are_ordered_by_code_point() {
    assert!(comes_before("Urgent", "urgent"));
    assert!(!comes_before("urgent", "Urgent"));
    assert!(comes_before("ab", "abc"));
    assert!(!comes_before("abc", "ab"));
    assert!(!comes_before("same", "same"));
    assert!(comes_before("", "a"));
    assert!(comes_before("z", "\u{e9}"));
}

#[test]
fn stored_names_are_read_back() {
    for status in [CardStatus::Open, CardStatus::InProgress, CardStatus::Done, CardStatus::Closed] {
        assert_eq!(CardStatus::from_str(&status.to_string()), Ok(status));
    }
    assert_eq!(CardStatus::from_str("In Progress"), Err("Invalid status: In Progress".to_string()));
    assert_eq!(CardStatus::default(), CardStatus::Open);
    for v in [CardVisibility::Private, CardVisibility::Restricted, CardVisibility::Public] {
        assert_eq!(CardVisibility::from_str(&v.to_string().to_uppercase()), Ok(v));
    }
    assert_eq!(CardVisibility::from_str("secret"), Err("Invalid visibility: secret".to_string()));
    assert_eq!(CardVisibility::from_stored("secret"), CardVisibility::Private);
    assert_eq!(CardVisibility::from_stored("PUBLIC"), CardVisibility::Public);
    for scope in [TokenScope::Read, TokenScope::Write, TokenScope::Admin] {
        assert_eq!(TokenScope::from_str(&scope.to_string()), Ok(scope));
    }
    assert_eq!(TokenScope::from_str("root"), Err("Invalid scope: root".to_string()));
}

#[test]
fn role_names_decide_on_editing() {
    assert!(role_can_edit("owner"));
    assert!(role_can_edit("Editor"));
    assert!(!role_can_edit("reader"));
    assert!(!role_can_edit(""));
}

#[test]
fn registrations_are_checked() {
    let user = |email: &str, password: &str, name: &str| CreateUser {
        email: email.to_string(),
        password: password.to_string(),
        name: name.to_string(),
    };
    assert_eq!(validate_registration(&user("a@b.c", "12345678", "Ann")), Ok(()));
    assert_eq!(
        validate_registration(&user("a@b.c", "1234567", "Ann")),
        Err(AppError::Validation("Password must be at least 8 characters".to_string()))
    );
    assert_eq!(
        validate_registration(&user("", "12345678", "Ann")),
        Err(AppError::Validation("All fields are required".to_string()))
    );
    let token = CreateApiToken { name: String::new(), scope: TokenScope::Read, expires_in_days: None };
    assert_eq!(
        validate_token_request(&token),
        Err(AppError::Validation("Token name is required".to_string()))
    );
    assert_eq!(
        validate_comment_body("  "),
        Err(AppError::Validation("Comment body is required".to_string()))
    );
    assert_eq!(validate_comment_body(" ok "), Ok(()));
}

#[test]
fn errors_have_a_status_and_a_message() {
    assert_eq!(AppError::NotFound.status(), 404);
    assert_eq!(AppError::Unauthorized.status(), 401);
    assert_eq!(AppError::Forbidden.status(), 403);
    assert_eq!(AppError::BadRequest("x".to_string()).status(), 400);
    assert_eq!(AppError::Validation("x".to_string()).status(), 422);
    assert_eq!(AppError::Internal("x".to_string()).status(), 500);
    assert_eq!(AppError::Database("x".to_string()).status(), 500);
    assert_eq!(AppError::Forbidden.to_string(), "Forbidden");
    assert_eq!(AppError::Validation("bad".to_string()).to_string(), "Validation error: bad");
    assert_eq!(AppError::Validation("bad".to_string()).public_message(), "bad");
    assert_eq!(AppError::Internal("oops".to_string()).public_message(), "Internal server error");
    assert_eq!(AppError::NotFound.public_message(), "Not found");
}
