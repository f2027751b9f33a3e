use expense_ledger::config::page_size;
use expense_ledger::controllers::auth_controller::{auth_handler, sign_in};
use expense_ledger::custom_errors::app::AppError;
use expense_ledger::custom_errors::auth::AuthError;
use expense_ledger::entities::users;
use expense_ledger::ledger::Ledger;
use expense_ledger::models::auth::{AuthReq, AuthRes};
use expense_ledger::request_verifier::cookies::{auth_token, session_token};
use expense_ledger::request_verifier::users::{
    admit_user, check_user_exists, subject_id, verify_user,
};
use expense_ledger::text::is_blank;
use expense_ledger::utils::jwt_token::generate_jwt;

fn request(email: &str) -> AuthReq {
    AuthReq::new(
        "google".to_string(),
        "g-123".to_string(),
        "asha".to_string(),
        email.to_string(),
        "asha@upi".to_string(),
    )
}

fn validation(r: Result<(), AppError>) -> String {
    match r {
        Err(AppError::ValidationError(m)) => m,
        other => panic!("expected a validation error, got {:?}", other),
    }
}

#[test]
fn a_sign_in_passes_its_check() {
    assert!(request("asha@example.org").check().is_ok());
}

#[test]
fn a_sign_in_reports_the_first_broken_rule() {
    let mut req = request("asha@example.org");
    req.oauth_provider = " ".to_string();
    req.oauth_id = String::new();
    assert_eq!(validation(req.check()), "OAuth provider is required");
    req.oauth_provider = "google".to_string();
    assert_eq!(validation(req.check()), "OAuth ID is required");
    req.oauth_id = "g-123".to_string();
    req.username = "  ab  ".to_string();
    assert_eq!(validation(req.check()), "Username must not be empty");
    req.username = " abc ".to_string();
    req.email = "asha.example.org".to_string();
    assert_eq!(validation(req.check()), "Invalid email format");
    req.email = "@".to_string();
    req.upi_id = " a@b  ".to_string();
    assert_eq!(validation(req.check()), "UPI ID must Username must not be empty");
    req.upi_id = "a@bcd".to_string();
    assert!(req.check().is_ok());
}

#[test]
fn a_user_name_is_measured_in_bytes() {
    let mut req = request("asha@example.org");
    req.username = "\u{e9}\u{e9}".to_string();
    assert!(req.check().is_ok());
    req.username = "\u{e9}a".to_string();
    assert!(req.check().is_ok());
    req.username = "\u{a0}ab\u{2003}".to_string();
    assert_eq!(validation(req.check()), "Username must not be empty");
}

#[test]
fn blank_is_nothing_but_white_space() {
    assert!(is_blank(""));
    assert!(is_blank(" \t\r\n\u{b}\u{c}\u{85}\u{a0}\u{1680}\u{2000}\u{200a}\u{2028}\u{2029}\u{202f}\u{205f}\u{3000}"));
    assert!(!is_blank(" x "));
    assert!(!is_blank("\u{200b}"));
    assert!(!is_blank("\u{180e}"));
    assert!(!is_blank("\u{feff}"));
    assert!(!is_blank("\u{1c}"));
}

#[test]
fn a_new_user_is_taken_up() {
    let mut ledger = Ledger::new();
    let res = sign_in(&mut ledger, request("asha@example.org"), 0xA, 5_000).unwrap();
    assert_eq!(res.id, 0xA);
    assert_eq!(res.email, "asha@example.org");
    assert_eq!(res.username, "asha");
    assert_eq!(res.oauth_provider, "google");
    assert_eq!(res.oauth_id, "g-123");
    assert_eq!(res.upi_id, "asha@upi");
    assert_eq!(res.created_at, 5_000);
    assert_eq!(res.updated_at, 5_000);
    assert_eq!(ledger.users.len(), 1);
    assert_eq!(ledger.users[0].id, 0xA);
    assert!(check_user_exists(&ledger, 0xA).is_ok());
}

#[test]
fn a_known_user_is_marked_as_seen() {
    let mut ledger = Ledger::new();
    sign_in(&mut ledger, request("asha@example.org"), 0xA, 5_000).unwrap();
    sign_in(&mut ledger, request("ben@example.org"), 0xB, 5_500).unwrap();
    let mut again = request("asha@example.org");
    again.username = "someone else".to_string();
    let res = sign_in(&mut ledger, again, 0xC, 6_000).unwrap();
    assert_eq!(res.id, 0xA);
    assert_eq!(res.username, "asha");
    assert_eq!(res.created_at, 5_000);
    assert_eq!(res.updated_at, 6_000);
    assert_eq!(ledger.users.len(), 2);
    assert_eq!(ledger.users[0].updated_at, 6_000);
    assert_eq!(ledger.users[1].updated_at, 5_500);
}

#[test]
fn a_sign_in_that_fails_its_check_changes_nothing() {
    let mut ledger = Ledger::new();
    match sign_in(&mut ledger, request("nowhere"), 0xA, 5_000) {
        Err(AuthError::AuthReqValidationError(m)) => assert_eq!(m, "Invalid email format"),
        other => panic!("got {:?}", other),
    }
    assert!(ledger.users.is_empty());
}

#[test]
fn the_sign_in_handler_draws_an_identifier_and_the_moment() {
    let mut ledger = Ledger::new();
    let first = auth_handler(&mut ledger, request("asha@example.org")).unwrap();
    let second = auth_handler(&mut ledger, request("ben@example.org")).unwrap();
    assert_ne!(first.id, second.id);
    assert!(first.created_at > 1_600_000_000_000_000);
    let again = auth_handler(&mut ledger, request("asha@example.org")).unwrap();
    assert_eq!(again.id, first.id);
    assert_eq!(ledger.users.len(), 2);
}

#[test]
fn a_response_shows_the_user() {
    let user = users::Model {
        id: 0xA,
        oauth_provider: "google".to_string(),
        oauth_id: "g-123".to_string(),
        username: "asha".to_string(),
        email: "asha@example.org".to_string(),
        upi_id: "asha@upi".to_string(),
        created_at: 1,
        updated_at: 2,
    };
    let shown = AuthRes::of(&user);
    let moved = AuthRes::from(user);
    assert_eq!(shown.id, moved.id);
    assert_eq!(shown.email, moved.email);
    assert_eq!(moved.created_at, 1);
    assert_eq!(moved.updated_at, 2);
}

#[test]
fn a_token_names_its_user_and_ends_a_day_later() {
    let claims = generate_jwt(0x67e55044_10b1_426f_9247_bb680e5fe0c8, 1_700_000_000).unwrap();
    assert_eq!(claims.sub, "67e55044-10b1-426f-9247-bb680e5fe0c8");
    assert_eq!(claims.exp, 1_700_086_400);
    let claims = generate_jwt(0, -86_400).unwrap();
    assert_eq!(claims.sub, "00000000-0000-0000-0000-000000000000");
    assert_eq!(claims.exp, 0);
}

#[test]
fn a_token_cannot_end_before_time_or_beyond_it() {
    assert!(matches!(generate_jwt(1, -86_401), Err(AppError::InternalServerError)));
    assert!(matches!(generate_jwt(1, i64::MAX), Err(AppError::InternalServerError)));
    assert!(matches!(generate_jwt(1, i64::MAX - 86_399), Err(AppError::InternalServerError)));
    assert!(generate_jwt(1, i64::MAX - 86_400).is_ok());
}

#[test]
fn the_subject_of_a_token_must_name_a_known_user() {
    let mut ledger = Ledger::new();
    sign_in(
        &mut ledger,
        request("asha@example.org"),
        0x67e55044_10b1_426f_9247_bb680e5fe0c8,
        5_000,
    )
    .unwrap();
    assert_eq!(
        verify_user(&ledger, "67e55044-10b1-426f-9247-bb680e5fe0c8").unwrap(),
        0x67e55044_10b1_426f_9247_bb680e5fe0c8
    );
    assert_eq!(
        verify_user(&ledger, "67E5504410B1426F9247BB680E5FE0C8").unwrap(),
        0x67e55044_10b1_426f_9247_bb680e5fe0c8
    );
    match verify_user(&ledger, "not an identifier") {
        Err(AppError::Unauthorized(m)) => assert_eq!(m, "Invalid user id in token"),
        other => panic!("got {:?}", other),
    }
    match verify_user(&ledger, "67e55044-10b1-426f-9247-bb680e5fe0c9") {
        Err(AppError::NotFound(m)) => assert_eq!(m, "User not found"),
        other => panic!("got {:?}", other),
    }
    assert!(matches!(admit_user(&ledger, None), Err(AppError::Unauthorized(_))));
    assert!(matches!(admit_user(&ledger, Some(1)), Err(AppError::NotFound(_))));
    assert_eq!(subject_id("00000000-0000-0000-0000-00000000000a"), Some(10));
    assert_eq!(subject_id("a"), None);
    match check_user_exists(&ledger, 1) {
        Err(AppError::NotFound(m)) => assert_eq!(m, "UserId doesn't exist"),
        other => panic!("got {:?}", other),
    }
}

#[test]
fn the_token_is_read_from_the_cookies() {
    let token = |h: &str| auth_token(h.as_bytes()).map(|t| String::from_utf8(t).unwrap());
    assert_eq!(token("auth_token=abc"), Some("abc".to_string()));
    assert_eq!(token("theme=dark; auth_token=abc.def; lang=en"), Some("abc.def".to_string()));
    assert_eq!(token(" \t auth_token=abc \t;x=1"), Some("abc".to_string()));
    assert_eq!(token("auth_token=first;auth_token=second"), Some("first".to_string()));
    assert_eq!(token("auth_token=auth_token=auth_token=abc"), Some("abc".to_string()));
    assert_eq!(token("auth_token=auth_token"), Some("auth_token".to_string()));
    assert_eq!(token("auth_token="), Some(String::new()));
    assert_eq!(token("auth_token= abc"), Some(" abc".to_string()));
    assert_eq!(token("auth_token=a=b"), Some("a=b".to_string()));
    assert_eq!(token(""), None);
    assert_eq!(token(";;"), None);
    assert_eq!(token("auth_token"), None);
    assert_eq!(token("xauth_token=abc"), None);
    assert_eq!(token("Auth_token=abc"), None);
    assert_eq!(token("auth_token =abc"), None);
    assert_eq!(token("a=1;auth_token=abc\n"), None);
    assert_eq!(token("a=\u{e9};auth_token=abc"), None);
    assert_eq!(auth_token(&[0x7f]), None);
    assert_eq!(session_token(Some(b"a=1; auth_token=t")).unwrap(), b"t".to_vec());
    match session_token(Some(b"a=1")) {
        Err(AppError::Unauthorized(m)) => assert_eq!(m, "Missing auth_token cookie"),
        other => panic!("got {:?}", other),
    }
    assert!(matches!(session_token(None), Err(AppError::Unauthorized(_))));
}

#[test]
fn the_size_of_a_page_is_read_from_its_setting() {
    assert_eq!(page_size(Some("20")).unwrap(), 20);
    assert_eq!(page_size(Some("  +7\n")).unwrap(), 7);
    assert_eq!(page_size(Some("007")).unwrap(), 7);
    assert_eq!(page_size(Some("18446744073709551615")).unwrap(), u64::MAX);
    match page_size(None) {
        Err(AppError::ConfigError(m)) => assert_eq!(m, "PAGE_SIZE must be set"),
        other => panic!("got {:?}", other),
    }
    for bad in ["", " ", "0", "+", "-1", "-0", "1 0", "1_0", "ten", "1.5", "18446744073709551616", "++1", "\u{663}"] {
        match page_size(Some(bad)) {
            Err(AppError::ConfigError(m)) => assert_eq!(m, "Invalid PAGE_SIZE value"),
            other => panic!("{:?} gave {:?}", bad, other),
        }
    }
}
