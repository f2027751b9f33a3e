use expense_ledger::custom_errors::app::AppError;
use expense_ledger::models::activities::{
    CreateActivityReq, DeleteActivityReq, GetActivitiesReq, GetDuesReq, UpdateActivityReq,
};
use expense_ledger::money::Money;
use expense_ledger::split::{check_shares, validate_split, SplitError};

fn amount(mantissa: i128, scale: u32) -> Money {
    Money::try_new(mantissa, scale).unwrap()
}

fn whole(n: i64) -> Money {
    Money::from_whole(n)
}

fn request(amount: Money, members: Vec<u128>, shares: Vec<Money>) -> CreateActivityReq {
    CreateActivityReq::new("Dinner".to_string(), 7, amount, members, shares, None)
}

fn validation(r: Result<(), AppError>) -> String {
    match r {
        Err(AppError::ValidationError(m)) => m,
        other => panic!("expected a validation error, got {:?}", other),
    }
}

#[test]
fn accepts_a_split_that_adds_up() {
    assert_eq!(validate_split(&whole(100), &vec![1, 2], &vec![whole(40), whole(60)]), Ok(()));
}

#[test]
fn accepts_a_split_that_adds_up_across_scales() {
    let shares = vec![amount(3333, 2), amount(33340, 3), amount(3333, 2)];
    assert_eq!(validate_split(&whole(100), &vec![1, 2, 3], &shares), Ok(()));
}

#[test]
fn refuses_an_amount_that_is_not_above_zero() {
    assert_eq!(
        validate_split(&whole(0), &vec![1], &vec![whole(0)]),
        Err(SplitError::InvalidAmount)
    );
    assert_eq!(
        validate_split(&whole(-5), &vec![1], &vec![whole(-5)]),
        Err(SplitError::InvalidAmount)
    );
}

#[test]
fn refuses_an_empty_split() {
    assert_eq!(validate_split(&whole(10), &vec![], &vec![]), Err(SplitError::EmptySplit));
    assert_eq!(validate_split(&whole(10), &vec![1], &vec![]), Err(SplitError::EmptySplit));
    assert_eq!(validate_split(&whole(10), &vec![], &vec![whole(10)]), Err(SplitError::EmptySplit));
}

#[test]
fn refuses_members_and_amounts_of_different_number() {
    assert_eq!(
        validate_split(&whole(10), &vec![1, 2], &vec![whole(10)]),
        Err(SplitError::SplitLengthMismatch)
    );
}

#[test]
fn refuses_a_split_that_is_off_by_the_smallest_unit() {
    let shares = vec![amount(4, 1), amount(5_999_999_999_999_999_999_999_999_999, 28)];
    assert_eq!(
        validate_split(&whole(1), &vec![1, 2], &shares),
        Err(SplitError::SplitMismatch)
    );
    let shares = vec![amount(4, 1), amount(6_000_000_000_000_000_000_000_000_000, 28)];
    assert_eq!(validate_split(&whole(1), &vec![1, 2], &shares), Ok(()));
}

#[test]
fn refuses_a_split_whose_sum_cannot_be_held() {
    let most = amount(79_228_162_514_264_337_593_543_950_335, 0);
    assert_eq!(
        validate_split(&whole(1), &vec![1, 2], &vec![most, whole(1)]),
        Err(SplitError::Inexact)
    );
}

#[test]
fn checks_shares_without_an_amount_for_number_only() {
    assert_eq!(check_shares(&vec![1, 2], &vec![whole(1), whole(2)], None), Ok(()));
    assert_eq!(
        check_shares(&vec![1, 2], &vec![whole(1), whole(2)], Some(&whole(4))),
        Err(SplitError::SplitMismatch)
    );
}

#[test]
fn create_request_passes_its_check() {
    let mut req = request(whole(100), vec![1, 2], vec![whole(40), whole(60)]);
    assert!(req.check().is_ok());
}

#[test]
fn create_request_needs_a_description() {
    let mut req = request(whole(100), vec![1, 2], vec![whole(40), whole(60)]);
    req.description = " \t\n".to_string();
    assert_eq!(validation(req.check()), "Description cannot be empty");
}

#[test]
fn create_request_needs_a_group() {
    let mut req = request(whole(100), vec![1, 2], vec![whole(40), whole(60)]);
    req.group_id = 0;
    assert_eq!(validation(req.check()), "Group Id cannot be empty");
}

#[test]
fn create_request_reports_the_first_broken_rule() {
    let mut req = request(whole(0), vec![], vec![]);
    req.description = String::new();
    req.group_id = 0;
    assert_eq!(validation(req.check()), "Description cannot be empty");
}

#[test]
fn create_request_drops_a_blank_logo() {
    let mut req = request(whole(100), vec![1, 2], vec![whole(40), whole(60)]);
    req.expense_logo = Some("  ".to_string());
    assert!(req.check().is_ok());
    assert_eq!(req.expense_logo, None);
    req.expense_logo = Some("pizza.png".to_string());
    assert!(req.check().is_ok());
    assert_eq!(req.expense_logo, Some("pizza.png".to_string()));
}

#[test]
fn create_request_drops_a_blank_logo_even_if_the_split_fails() {
    let mut req = request(whole(100), vec![1, 2], vec![whole(40), whole(50)]);
    req.expense_logo = Some("\u{3000}".to_string());
    assert!(matches!(req.check(), Err(AppError::AmountsDontAddUp(_))));
    assert_eq!(req.expense_logo, None);
}

#[test]
fn create_request_keeps_the_logo_if_the_description_fails() {
    let mut req = request(whole(100), vec![1, 2], vec![whole(40), whole(60)]);
    req.description = String::new();
    req.expense_logo = Some(" ".to_string());
    assert!(req.check().is_err());
    assert_eq!(req.expense_logo, Some(" ".to_string()));
}

#[test]
fn create_request_reports_each_fault_of_the_split() {
    let mut req = request(whole(0), vec![1], vec![whole(0)]);
    assert_eq!(validation(req.check()), "Amount must be greater than zero");
    let mut req = request(whole(5), vec![], vec![whole(5)]);
    assert_eq!(validation(req.check()), "Split members and split amounts cannot be empty");
    let mut req = request(whole(5), vec![1, 2], vec![whole(5)]);
    assert_eq!(
        validation(req.check()),
        "Split members and split amounts must have the same length"
    );
    let mut req = request(whole(5), vec![1], vec![whole(4)]);
    match req.check() {
        Err(AppError::AmountsDontAddUp(m)) => {
            assert_eq!(m, "Total split amount does not match the main amount")
        }
        other => panic!("got {:?}", other),
    }
    let most = amount(79_228_162_514_264_337_593_543_950_335, 0);
    let mut req = request(whole(5), vec![1, 2], vec![most, most]);
    assert!(matches!(req.check(), Err(AppError::InternalServerError)));
}

fn update(id: u128) -> UpdateActivityReq {
    UpdateActivityReq {
        id,
        description: None,
        group_id: 7,
        amount: None,
        split_members: None,
        split_amounts: None,
        expense_logo: None,
    }
}

#[test]
fn update_request_needs_an_identifier() {
    assert_eq!(validation(update(0).check()), "Activity ID cannot be empty");
    assert!(update(1).check().is_ok());
}

#[test]
fn update_request_bounds_the_description() {
    let mut req = update(1);
    req.description = Some(String::new());
    assert_eq!(validation(req.check()), "Description must be between 1 and 255 characters");
    req.description = Some("x".repeat(255));
    assert!(req.check().is_ok());
    req.description = Some("x".repeat(256));
    assert_eq!(validation(req.check()), "Description must be between 1 and 255 characters");
    req.description = Some("\u{e9}".repeat(128));
    assert_eq!(validation(req.check()), "Description must be between 1 and 255 characters");
    req.description = Some("\u{e9}".repeat(127));
    assert!(req.check().is_ok());
}

#[test]
fn update_request_needs_an_amount_above_zero() {
    let mut req = update(1);
    req.amount = Some(whole(-1));
    assert_eq!(validation(req.check()), "Amount must be positive");
    req.amount = Some(whole(0));
    assert_eq!(validation(req.check()), "Amount must be positive");
    req.amount = Some(amount(1, 28));
    assert!(req.check().is_ok());
}

#[test]
fn update_request_checks_a_split_that_comes_whole() {
    let mut req = update(1);
    req.split_members = Some(vec![1, 2]);
    req.split_amounts = Some(vec![whole(1)]);
    assert_eq!(validation(req.check()), "Split amounts must match the number of split members");
    req.split_amounts = Some(vec![]);
    assert_eq!(validation(req.check()), "Split members and split amounts cannot be empty");
    req.split_amounts = Some(vec![whole(1), whole(2)]);
    assert!(req.check().is_ok());
    req.amount = Some(whole(4));
    assert!(matches!(req.check(), Err(AppError::AmountsDontAddUp(_))));
    req.amount = Some(whole(3));
    assert!(req.check().is_ok());
}

#[test]
fn update_request_refuses_an_empty_list_that_comes_alone() {
    let mut req = update(1);
    req.split_members = Some(vec![]);
    assert_eq!(validation(req.check()), "Split members and split amounts cannot be empty");
    req.split_members = None;
    req.split_amounts = Some(vec![]);
    assert_eq!(validation(req.check()), "Split members and split amounts cannot be empty");
    req.amount = Some(whole(3));
    assert_eq!(validation(req.check()), "Split members and split amounts cannot be empty");
    req.split_members = Some(vec![1]);
    assert_eq!(validation(req.check()), "Split members and split amounts cannot be empty");
}

#[test]
fn update_request_lets_a_list_that_comes_alone_pass() {
    let mut req = update(1);
    req.split_members = Some(vec![1, 2]);
    assert!(req.check().is_ok());
    req.split_members = None;
    req.split_amounts = Some(vec![whole(1)]);
    req.amount = Some(whole(3));
    assert!(req.check().is_ok());
}

#[test]
fn delete_request_needs_both_identifiers() {
    let req = DeleteActivityReq { activity_id: 0, group_id: 7 };
    assert_eq!(validation(req.check()), "Activity ID cannot be empty");
    let req = DeleteActivityReq { activity_id: 3, group_id: 0 };
    assert_eq!(validation(req.check()), "Group ID cannot be empty");
    assert!(DeleteActivityReq { activity_id: 3, group_id: 7 }.check().is_ok());
}

#[test]
fn read_requests_need_a_group() {
    assert_eq!(
        validation(GetActivitiesReq { group_id: 0 }.check()),
        "Group ID cannot be empty"
    );
    assert!(GetActivitiesReq { group_id: 1 }.check().is_ok());
    assert_eq!(
        validation(GetDuesReq { group_id: 0, simplify: true }.check()),
        "Group ID cannot be empty"
    );
    assert!(GetDuesReq { group_id: 1, simplify: false }.check().is_ok());
}
