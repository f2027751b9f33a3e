use expense_ledger::custom_errors::activities::ActivityError;
use expense_ledger::custom_errors::app::AppError;
use expense_ledger::custom_errors::auth::AuthError;
use expense_ledger::custom_errors::groups::GroupError;

fn shown(e: &AppError) -> (u16, &'static str, String) {
    (e.status_code(), e.label(), e.reason())
}

#[test]
fn app_errors_map_to_status_label_and_reason() {
    let m = || "why".to_string();
    assert_eq!(shown(&AppError::ValidationError(m())), (400, "Validation error", m()));
    assert_eq!(shown(&AppError::DatabaseError(m())), (500, "Database error", m()));
    assert_eq!(shown(&AppError::ConfigError(m())), (500, "Config error", m()));
    assert_eq!(shown(&AppError::DuplicateError(m())), (409, "Duplicate error", m()));
    assert_eq!(shown(&AppError::AmountsDontAddUp(m())), (400, "Amounts Don't Add Up", m()));
    assert_eq!(shown(&AppError::NotFound(m())), (404, "Not Found", m()));
    assert_eq!(shown(&AppError::UserNotInGroup(m())), (403, "User Not in Group", m()));
    assert_eq!(shown(&AppError::Unauthorized(m())), (401, "Unauthorized", m()));
    assert_eq!(
        shown(&AppError::InternalServerError),
        (500, "Internal server error", "Something went wrong".to_string())
    );
}

#[test]
fn app_errors_are_built_from_a_reason() {
    assert!(matches!(AppError::validation("x"), AppError::ValidationError(m) if m == "x"));
    assert!(matches!(AppError::config("x"), AppError::ConfigError(m) if m == "x"));
    assert!(matches!(AppError::amounts_dont_add_up("x"), AppError::AmountsDontAddUp(m) if m == "x"));
    assert!(matches!(AppError::not_found("x"), AppError::NotFound(m) if m == "x"));
    assert!(matches!(AppError::user_not_in_group("x"), AppError::UserNotInGroup(m) if m == "x"));
    assert!(matches!(AppError::unauthorized("x"), AppError::Unauthorized(m) if m == "x"));
}

#[test]
fn activity_errors_map_to_status_label_and_reason() {
    let m = || "why".to_string();
    let e = ActivityError::ActivityReqValidationError(m());
    assert_eq!((e.status_code(), e.label(), e.reason()), (400, "Validation error", m()));
    let e = ActivityError::DatabaseError(m());
    assert_eq!((e.status_code(), e.label(), e.reason()), (500, "Database error", m()));
    let e = ActivityError::AmountsDontAddUp(m());
    assert_eq!((e.status_code(), e.label(), e.reason()), (500, "Amounts Don't Add up error", m()));
    let e = ActivityError::InternalServerError;
    assert_eq!(
        (e.status_code(), e.label(), e.reason()),
        (500, "Internal server error", "Something went wrong".to_string())
    );
}

#[test]
fn auth_errors_map_to_status_label_and_reason() {
    let m = || "why".to_string();
    let e = AuthError::AuthReqValidationError(m());
    assert_eq!((e.status_code(), e.label(), e.reason()), (400, "Validation error", m()));
    let e = AuthError::DatabaseError(m());
    assert_eq!((e.status_code(), e.label(), e.reason()), (500, "Database error", m()));
    let e = AuthError::DuplicateError(m());
    assert_eq!((e.status_code(), e.label(), e.reason()), (409, "Duplicate error", m()));
    let e = AuthError::UserNotFound(m());
    assert_eq!((e.status_code(), e.label(), e.reason()), (404, "User Not Found error", m()));
    let e = AuthError::Unauthorized(m());
    assert_eq!((e.status_code(), e.label(), e.reason()), (401, "Unauthorized", m()));
    let e = AuthError::InternalServerError;
    assert_eq!(
        (e.status_code(), e.label(), e.reason()),
        (500, "Internal server error", "Something went wrong".to_string())
    );
}

#[test]
fn group_errors_map_to_status_label_and_reason() {
    let m = || "why".to_string();
    let e = GroupError::AuthReqValidationError(m());
    assert_eq!((e.status_code(), e.label(), e.reason()), (400, "Validation error", m()));
    let e = GroupError::DatabaseError(m());
    assert_eq!((e.status_code(), e.label(), e.reason()), (500, "Database error", m()));
    let e = GroupError::GroupNotFound(m());
    assert_eq!((e.status_code(), e.label(), e.reason()), (404, "Group Not Found error", m()));
    let e = GroupError::Unauthorized(m());
    assert_eq!((e.status_code(), e.label(), e.reason()), (401, "Unauthorized", m()));
    let e = GroupError::InternalServerError;
    assert_eq!(
        (e.status_code(), e.label(), e.reason()),
        (500, "Internal server error", "Something went wrong".to_string())
    );
}

#[test]
fn a_failed_check_becomes_an_error_of_the_sign_in() {
    assert!(matches!(
        AuthError::from_check(AppError::ValidationError("x".to_string())),
        AuthError::AuthReqValidationError(m) if m == "x"
    ));
    assert!(matches!(
        AuthError::from_check(AppError::NotFound("x".to_string())),
        AuthError::UserNotFound(m) if m == "x"
    ));
    assert!(matches!(
        AuthError::from_check(AppError::ConfigError("x".to_string())),
        AuthError::InternalServerError
    ));
}
