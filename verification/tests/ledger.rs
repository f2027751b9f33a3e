use expense_ledger::controllers::activities_controller::{
    create_activity, create_activity_handler, delete_activity, delete_activity_handler,
    get_all_activities_handler, get_dues_detailed, get_dues_handler, get_dues_simplified,
    recompute_total, update_activity, update_activity_handler, update_group_total_expense,
    compute_split_details, DuesResponse, ACTIVITY_DELETED,
};
use expense_ledger::controllers::groups_controller::create_group;
use expense_ledger::custom_errors::app::AppError;
use expense_ledger::entities::{activities, group_members, groups};
use expense_ledger::ledger::Ledger;
use expense_ledger::models::activities::{
    CreateActivityReq, DeleteActivityReq, GetActivitiesReq, GetDuesReq, UpdateActivityReq,
};
use expense_ledger::models::groups::CreateGroupReq;
use expense_ledger::money::Money;

const A: u128 = 0xA;
const B: u128 = 0xB;
const C: u128 = 0xC;
const G: u128 = 0x60;
const H: u128 = 0x61;
const T0: i64 = 1_000;
const T1: i64 = 2_000;
const T2: i64 = 3_000;

fn whole(n: i64) -> Money {
    Money::from_whole(n)
}

fn amount(mantissa: i128, scale: u32) -> Money {
    Money::try_new(mantissa, scale).unwrap()
}

fn member(id: u128, group_id: u128, member_id: u128, joined_at: i64) -> group_members::Model {
    group_members::Model { id, group_id, member_id, joined_at }
}

/// A ledger with the group G, founded by A at T0, which B joined at T1.
fn ledger_with_group() -> Ledger {
    let mut ledger = Ledger::new();
    create_group(&mut ledger, A, CreateGroupReq::new("Trip".to_string(), None), G, 0x100, T0)
        .unwrap();
    ledger.group_members.push(member(0x101, G, B, T1));
    ledger
}

fn dinner(group_id: u128) -> CreateActivityReq {
    CreateActivityReq::new(
        "Dinner".to_string(),
        group_id,
        whole(100),
        vec![A, B],
        vec![whole(40), whole(60)],
        None,
    )
}

fn update(id: u128, group_id: u128) -> UpdateActivityReq {
    UpdateActivityReq {
        id,
        description: None,
        group_id,
        amount: None,
        split_members: None,
        split_amounts: None,
        expense_logo: None,
    }
}

fn total_of(ledger: &Ledger, group_id: u128) -> Money {
    ledger.groups.iter().find(|g| g.id == group_id).unwrap().total_expense
}

fn balance_of(ledger: &Ledger, group_id: u128, user_id: u128) -> Option<Money> {
    let dues = get_dues_simplified(ledger, group_id).unwrap().dues;
    dues.iter().find(|d| d.user_id == user_id).map(|d| d.amount)
}

#[test]
fn a_logged_activity_is_stored_and_sets_the_total() {
    let mut ledger = ledger_with_group();
    let res = create_activity(&mut ledger, A, dinner(G), 0x500, T2).unwrap();
    assert_eq!(res.id, 0x500);
    assert_eq!(res.paid_by_id, A);
    assert_eq!(res.group_id, G);
    assert_eq!(res.description, "Dinner");
    assert_eq!(res.time, T2);
    assert_eq!(res.created_at, T2);
    assert_eq!(res.updated_at, T2);
    assert!(res.user_involvement);
    assert_eq!(res.split_members, vec![A, B]);
    assert_eq!(ledger.activities.len(), 1);
    assert_eq!(ledger.activities[0].id, 0x500);
    assert!(total_of(&ledger, G).same_value(&whole(100)));
    assert_eq!(ledger.groups[0].updated_at, T2);
    assert_eq!(ledger.groups[0].created_at, T0);
}

#[test]
fn the_payer_need_not_be_in_the_split() {
    let mut ledger = ledger_with_group();
    let req = CreateActivityReq::new(
        "Gift".to_string(),
        G,
        whole(10),
        vec![B],
        vec![whole(10)],
        None,
    );
    let res = create_activity(&mut ledger, A, req, 0x500, T2).unwrap();
    assert!(!res.user_involvement);
    assert!(balance_of(&ledger, G, A).unwrap().same_value(&whole(10)));
    assert!(balance_of(&ledger, G, B).unwrap().same_value(&whole(-10)));
}

#[test]
fn logging_checks_the_request_then_the_group_then_the_user() {
    let mut ledger = ledger_with_group();
    let mut bad = dinner(H);
    bad.description = String::new();
    assert!(matches!(
        create_activity(&mut ledger, C, bad, 1, T2),
        Err(AppError::ValidationError(_))
    ));
    match create_activity(&mut ledger, C, dinner(H), 1, T2) {
        Err(AppError::NotFound(m)) => assert_eq!(m, "Group not found"),
        other => panic!("got {:?}", other),
    }
    assert!(matches!(
        create_activity(&mut ledger, C, dinner(G), 1, T2),
        Err(AppError::UserNotInGroup(_))
    ));
    assert!(ledger.activities.is_empty());
    assert!(total_of(&ledger, G).same_value(&whole(0)));
}

#[test]
fn the_admin_may_log_without_a_membership() {
    let mut ledger = ledger_with_group();
    ledger.group_members.clear();
    assert!(create_activity(&mut ledger, A, dinner(G), 1, T2).is_ok());
    assert!(matches!(
        create_activity(&mut ledger, B, dinner(G), 2, T2),
        Err(AppError::UserNotInGroup(_))
    ));
}

#[test]
fn a_total_that_cannot_be_held_stops_the_logging() {
    let mut ledger = ledger_with_group();
    let most = amount(79_228_162_514_264_337_593_543_950_335, 0);
    let big = CreateActivityReq::new("Yacht".to_string(), G, most, vec![A], vec![most], None);
    create_activity(&mut ledger, A, big, 1, T2).unwrap();
    assert!(matches!(
        create_activity(&mut ledger, A, dinner(G), 2, T2),
        Err(AppError::InternalServerError)
    ));
    assert_eq!(ledger.activities.len(), 1);
    assert!(total_of(&ledger, G).same_value(&most));
}

#[test]
fn totals_are_kept_for_each_group_apart() {
    let mut ledger = ledger_with_group();
    create_group(&mut ledger, B, CreateGroupReq::new("Flat".to_string(), None), H, 0x102, T0)
        .unwrap();
    create_activity(&mut ledger, A, dinner(G), 1, T2).unwrap();
    create_activity(&mut ledger, B, dinner(H), 2, T2).unwrap();
    create_activity(&mut ledger, B, dinner(G), 3, T2).unwrap();
    assert!(total_of(&ledger, G).same_value(&whole(200)));
    assert!(total_of(&ledger, H).same_value(&whole(100)));
}

#[test]
fn the_handler_draws_an_identifier_and_the_moment() {
    let mut ledger = ledger_with_group();
    let first = create_activity_handler(&mut ledger, A, dinner(G)).unwrap();
    let second = create_activity_handler(&mut ledger, A, dinner(G)).unwrap();
    assert_ne!(first.id, second.id);
    assert_eq!(first.created_at, first.updated_at);
    assert!(first.created_at > 1_600_000_000_000_000);
    assert_eq!(ledger.activities.len(), 2);
    assert_eq!(ledger.activities[1].id, second.id);
    assert!(total_of(&ledger, G).same_value(&whole(200)));
}

#[test]
fn a_change_replaces_what_the_request_brings() {
    let mut ledger = ledger_with_group();
    create_activity(&mut ledger, A, dinner(G), 1, T1).unwrap();
    let mut req = update(1, G);
    req.description = Some("Lunch".to_string());
    req.amount = Some(whole(50));
    req.split_members = Some(vec![B]);
    req.split_amounts = Some(vec![whole(50)]);
    req.expense_logo = Some(Some("burger.png".to_string()));
    let res = update_activity(&mut ledger, A, req, T2).unwrap();
    assert_eq!(res.description, "Lunch");
    assert!(res.amount.same_value(&whole(50)));
    assert_eq!(res.split_members, vec![B]);
    assert!(!res.user_involvement);
    assert_eq!(res.expense_logo, Some("burger.png".to_string()));
    assert_eq!(res.created_at, T1);
    assert_eq!(res.time, T1);
    assert_eq!(res.updated_at, T2);
    assert_eq!(ledger.activities.len(), 1);
    assert_eq!(ledger.activities[0].description, "Lunch");
    assert!(total_of(&ledger, G).same_value(&whole(50)));
    assert_eq!(ledger.groups[0].updated_at, T2);
}

#[test]
fn a_change_can_take_the_logo_away() {
    let mut ledger = ledger_with_group();
    let mut req = dinner(G);
    req.expense_logo = Some("pizza.png".to_string());
    create_activity(&mut ledger, A, req, 1, T1).unwrap();
    let mut change = update(1, G);
    change.expense_logo = Some(None);
    let res = update_activity(&mut ledger, A, change, T2).unwrap();
    assert_eq!(res.expense_logo, None);
}

#[test]
fn a_change_that_changes_nothing_is_refused() {
    let mut ledger = ledger_with_group();
    create_activity(&mut ledger, A, dinner(G), 1, T1).unwrap();
    match update_activity(&mut ledger, A, update(1, G), T2) {
        Err(AppError::ValidationError(m)) => assert_eq!(m, "No changes detected"),
        other => panic!("got {:?}", other),
    }
    let mut same = update(1, G);
    same.description = Some("Dinner".to_string());
    same.amount = Some(amount(10000, 2));
    same.split_members = Some(vec![A, B]);
    same.split_amounts = Some(vec![amount(400, 1), whole(60)]);
    assert!(matches!(
        update_activity(&mut ledger, A, same, T2),
        Err(AppError::ValidationError(_))
    ));
    assert_eq!(ledger.activities[0].updated_at, T1);
}

#[test]
fn only_the_payer_may_change_an_activity() {
    let mut ledger = ledger_with_group();
    create_activity(&mut ledger, A, dinner(G), 1, T1).unwrap();
    let mut req = update(1, G);
    req.description = Some("Mine now".to_string());
    match update_activity(&mut ledger, B, req, T2) {
        Err(AppError::Unauthorized(m)) => {
            assert_eq!(m, "You are not authorized to update this activity")
        }
        other => panic!("got {:?}", other),
    }
    assert_eq!(ledger.activities[0].description, "Dinner");
    assert_eq!(ledger.activities[0].updated_at, T1);
    assert_eq!(ledger.groups[0].updated_at, T1);
}

#[test]
fn a_change_needs_the_activity_to_be_in_the_group() {
    let mut ledger = ledger_with_group();
    create_group(&mut ledger, A, CreateGroupReq::new("Flat".to_string(), None), H, 0x102, T0)
        .unwrap();
    create_activity(&mut ledger, A, dinner(G), 1, T1).unwrap();
    let mut req = update(1, H);
    req.description = Some("Lunch".to_string());
    match update_activity(&mut ledger, A, req, T2) {
        Err(AppError::NotFound(m)) => assert_eq!(m, "Activity not found in group"),
        other => panic!("got {:?}", other),
    }
    let mut req = update(9, G);
    req.description = Some("Lunch".to_string());
    assert!(matches!(update_activity(&mut ledger, A, req, T2), Err(AppError::NotFound(_))));
    let mut req = update(1, G);
    req.description = Some("Lunch".to_string());
    assert!(matches!(
        update_activity(&mut ledger, C, req, T2),
        Err(AppError::UserNotInGroup(_))
    ));
}

#[test]
fn a_change_that_breaks_the_total_is_undone() {
    let mut ledger = ledger_with_group();
    let most = amount(79_228_162_514_264_337_593_543_950_335, 0);
    create_activity(&mut ledger, A, dinner(G), 1, T1).unwrap();
    create_activity(&mut ledger, A, dinner(G), 2, T1).unwrap();
    let mut req = update(1, G);
    req.amount = Some(most);
    req.split_members = Some(vec![B]);
    req.split_amounts = Some(vec![most]);
    assert!(matches!(
        update_activity(&mut ledger, A, req, T2),
        Err(AppError::InternalServerError)
    ));
    assert_eq!(ledger.activities.len(), 2);
    assert_eq!(ledger.activities[0].id, 1);
    assert!(ledger.activities[0].amount.same_value(&whole(100)));
    assert_eq!(ledger.activities[1].id, 2);
    assert!(total_of(&ledger, G).same_value(&whole(200)));
}

#[test]
fn a_change_must_leave_the_split_valid() {
    let mut ledger = ledger_with_group();
    create_activity(&mut ledger, A, dinner(G), 1, T1).unwrap();

    let mut only_amount = update(1, G);
    only_amount.amount = Some(whole(200));
    match update_activity(&mut ledger, A, only_amount, T2) {
        Err(AppError::AmountsDontAddUp(m)) => {
            assert_eq!(m, "Total split amount does not match the main amount")
        }
        other => panic!("got {:?}", other),
    }

    let mut only_members = update(1, G);
    only_members.split_members = Some(vec![A, B, C]);
    match update_activity(&mut ledger, A, only_members, T2) {
        Err(AppError::ValidationError(m)) => {
            assert_eq!(m, "Split amounts must match the number of split members")
        }
        other => panic!("got {:?}", other),
    }

    let mut only_amounts = update(1, G);
    only_amounts.split_amounts = Some(vec![whole(100)]);
    assert!(matches!(
        update_activity(&mut ledger, A, only_amounts, T2),
        Err(AppError::ValidationError(_))
    ));

    let mut other_shares = update(1, G);
    other_shares.split_amounts = Some(vec![whole(50), whole(51)]);
    assert!(matches!(
        update_activity(&mut ledger, A, other_shares, T2),
        Err(AppError::AmountsDontAddUp(_))
    ));

    assert_eq!(ledger.activities.len(), 1);
    assert!(ledger.activities[0].amount.same_value(&whole(100)));
    assert_eq!(ledger.activities[0].split_members, vec![A, B]);
    assert_eq!(ledger.activities[0].updated_at, T1);
    assert!(total_of(&ledger, G).same_value(&whole(100)));
}

#[test]
fn a_change_of_one_part_goes_through_if_the_split_stays_valid() {
    let mut ledger = ledger_with_group();
    create_activity(&mut ledger, A, dinner(G), 1, T1).unwrap();

    let mut other_members = update(1, G);
    other_members.split_members = Some(vec![B, C]);
    let res = update_activity(&mut ledger, A, other_members, T2).unwrap();
    assert_eq!(res.split_members, vec![B, C]);
    assert!(!res.user_involvement);

    let mut other_shares = update(1, G);
    other_shares.split_amounts = Some(vec![whole(70), whole(30)]);
    assert!(update_activity(&mut ledger, A, other_shares, T2).is_ok());

    let mut other_text = update(1, G);
    other_text.description = Some("Lunch".to_string());
    assert!(update_activity(&mut ledger, A, other_text, T2).is_ok());

    let dues = get_dues_simplified(&ledger, G).unwrap().dues;
    let sum = Money::sum(&dues.iter().map(|d| d.amount).collect()).unwrap();
    assert!(sum.same_value(&Money::zero()));
    assert!(total_of(&ledger, G).same_value(&whole(100)));
}

#[test]
fn a_change_to_an_activity_with_a_broken_split_must_mend_it() {
    let mut ledger = ledger_with_group();
    ledger.activities.push(activities::Model {
        id: 1,
        description: "Edited by hand".to_string(),
        paid_by_id: A,
        group_id: G,
        time: T1,
        amount: whole(100),
        split_members: vec![A, B],
        split_amounts: vec![whole(40)],
        user_involvement: true,
        expense_logo: None,
        created_at: T1,
        updated_at: T1,
    });
    let mut other_text = update(1, G);
    other_text.description = Some("Lunch".to_string());
    assert!(matches!(
        update_activity(&mut ledger, A, other_text, T2),
        Err(AppError::ValidationError(_))
    ));
    let mut mended = update(1, G);
    mended.split_amounts = Some(vec![whole(40), whole(60)]);
    assert!(update_activity(&mut ledger, A, mended, T2).is_ok());
}

#[test]
fn the_update_handler_marks_the_present_moment() {
    let mut ledger = ledger_with_group();
    create_activity(&mut ledger, A, dinner(G), 1, T1).unwrap();
    let mut req = update(1, G);
    req.description = Some("Lunch".to_string());
    let res = update_activity_handler(&mut ledger, A, req).unwrap();
    assert!(res.updated_at > 1_600_000_000_000_000);
    assert_eq!(ledger.activities[0].updated_at, res.updated_at);
}

#[test]
fn a_deleted_activity_is_gone_and_the_total_follows() {
    let mut ledger = ledger_with_group();
    create_activity(&mut ledger, A, dinner(G), 1, T1).unwrap();
    create_activity(&mut ledger, B, dinner(G), 2, T1).unwrap();
    let text =
        delete_activity(&mut ledger, A, DeleteActivityReq { activity_id: 1, group_id: G }, T2)
            .unwrap();
    assert_eq!(text, "Activity Deleted successfully");
    assert_eq!(text, ACTIVITY_DELETED);
    assert_eq!(ledger.activities.len(), 1);
    assert_eq!(ledger.activities[0].id, 2);
    assert!(total_of(&ledger, G).same_value(&whole(100)));
    assert_eq!(ledger.groups[0].updated_at, T2);
}

#[test]
fn only_the_payer_may_delete_an_activity() {
    let mut ledger = ledger_with_group();
    create_activity(&mut ledger, A, dinner(G), 1, T1).unwrap();
    match delete_activity(&mut ledger, B, DeleteActivityReq { activity_id: 1, group_id: G }, T2) {
        Err(AppError::Unauthorized(m)) => {
            assert_eq!(m, "You are not authorized to delete this activity")
        }
        other => panic!("got {:?}", other),
    }
    assert_eq!(ledger.activities.len(), 1);
    assert!(total_of(&ledger, G).same_value(&whole(100)));
}

#[test]
fn a_deletion_checks_group_user_and_activity_in_turn() {
    let mut ledger = ledger_with_group();
    create_activity(&mut ledger, A, dinner(G), 1, T1).unwrap();
    assert!(matches!(
        delete_activity(&mut ledger, A, DeleteActivityReq { activity_id: 0, group_id: G }, T2),
        Err(AppError::ValidationError(_))
    ));
    match delete_activity(&mut ledger, C, DeleteActivityReq { activity_id: 9, group_id: H }, T2) {
        Err(AppError::NotFound(m)) => assert_eq!(m, "Group not found"),
        other => panic!("got {:?}", other),
    }
    assert!(matches!(
        delete_activity(&mut ledger, C, DeleteActivityReq { activity_id: 9, group_id: G }, T2),
        Err(AppError::UserNotInGroup(_))
    ));
    match delete_activity(&mut ledger, A, DeleteActivityReq { activity_id: 9, group_id: G }, T2) {
        Err(AppError::NotFound(m)) => assert_eq!(m, "Activity not found in group"),
        other => panic!("got {:?}", other),
    }
}

#[test]
fn the_delete_handler_deletes_now() {
    let mut ledger = ledger_with_group();
    create_activity(&mut ledger, A, dinner(G), 1, T1).unwrap();
    delete_activity_handler(&mut ledger, A, DeleteActivityReq { activity_id: 1, group_id: G })
        .unwrap();
    assert!(ledger.activities.is_empty());
    assert!(ledger.groups[0].updated_at > 1_600_000_000_000_000);
}

#[test]
fn recomputing_sets_a_stale_total_right_and_is_idempotent() {
    let mut ledger = ledger_with_group();
    create_activity(&mut ledger, A, dinner(G), 1, T1).unwrap();
    ledger.groups[0].total_expense = whole(7);
    recompute_total(&mut ledger, G, T2).unwrap();
    assert!(total_of(&ledger, G).same_value(&whole(100)));
    recompute_total(&mut ledger, G, T2).unwrap();
    assert!(total_of(&ledger, G).same_value(&whole(100)));
    assert_eq!(ledger.groups[0].updated_at, T2);
}

#[test]
fn recomputing_a_group_without_activities_gives_zero() {
    let mut ledger = ledger_with_group();
    ledger.groups[0].total_expense = whole(7);
    update_group_total_expense(&mut ledger, G).unwrap();
    assert!(total_of(&ledger, G).same_value(&whole(0)));
}

#[test]
fn recomputing_needs_the_group() {
    let mut ledger = ledger_with_group();
    match recompute_total(&mut ledger, H, T2) {
        Err(AppError::NotFound(m)) => assert_eq!(m, "Group not found"),
        other => panic!("got {:?}", other),
    }
}

#[test]
fn subtracting_a_deleted_amount_matches_recomputing() {
    let mut ledger = ledger_with_group();
    create_activity(&mut ledger, A, dinner(G), 1, T1).unwrap();
    let second = CreateActivityReq::new(
        "Taxi".to_string(),
        G,
        amount(1250, 2),
        vec![B],
        vec![amount(125, 1)],
        None,
    );
    create_activity(&mut ledger, B, second, 2, T1).unwrap();
    let before = total_of(&ledger, G);
    let by_subtraction = before.checked_sub(&amount(1250, 2)).unwrap();
    delete_activity(&mut ledger, B, DeleteActivityReq { activity_id: 2, group_id: G }, T2)
        .unwrap();
    assert!(total_of(&ledger, G).same_value(&by_subtraction));
}

#[test]
fn the_activities_of_a_group_are_listed_in_order() {
    let mut ledger = ledger_with_group();
    create_group(&mut ledger, A, CreateGroupReq::new("Flat".to_string(), None), H, 0x102, T0)
        .unwrap();
    create_activity(&mut ledger, A, dinner(G), 1, T1).unwrap();
    create_activity(&mut ledger, A, dinner(H), 2, T1).unwrap();
    create_activity(&mut ledger, B, dinner(G), 3, T1).unwrap();
    let list = get_all_activities_handler(&ledger, B, GetActivitiesReq { group_id: G }).unwrap();
    assert_eq!(list.iter().map(|a| a.id).collect::<Vec<_>>(), vec![1, 3]);
    assert_eq!(list[1].paid_by_id, B);
    assert!(matches!(
        get_all_activities_handler(&ledger, C, GetActivitiesReq { group_id: G }),
        Err(AppError::UserNotInGroup(_))
    ));
    assert!(matches!(
        get_all_activities_handler(&ledger, A, GetActivitiesReq { group_id: 0 }),
        Err(AppError::ValidationError(_))
    ));
    assert!(matches!(
        get_all_activities_handler(&ledger, A, GetActivitiesReq { group_id: 0x99 }),
        Err(AppError::NotFound(_))
    ));
}

#[test]
fn simplified_dues_net_each_user() {
    let mut ledger = ledger_with_group();
    create_activity(&mut ledger, A, dinner(G), 1, T1).unwrap();
    let taxi = CreateActivityReq::new(
        "Taxi".to_string(),
        G,
        whole(30),
        vec![A, B, C],
        vec![whole(10), whole(10), whole(10)],
        None,
    );
    create_activity(&mut ledger, B, taxi, 2, T1).unwrap();
    let dues = get_dues_simplified(&ledger, G).unwrap().dues;
    assert_eq!(dues.iter().map(|d| d.user_id).collect::<Vec<_>>(), vec![A, B, C]);
    assert!(dues[0].amount.same_value(&whole(50)));
    assert!(dues[1].amount.same_value(&whole(-40)));
    assert!(dues[2].amount.same_value(&whole(-10)));
    let total = Money::sum(&dues.iter().map(|d| d.amount).collect()).unwrap();
    assert!(total.same_value(&Money::zero()));
}

#[test]
fn simplified_dues_of_a_group_without_activities_are_empty() {
    let ledger = ledger_with_group();
    assert!(get_dues_simplified(&ledger, G).unwrap().dues.is_empty());
}

#[test]
fn simplified_dues_count_a_member_who_stands_twice() {
    let mut ledger = ledger_with_group();
    ledger.activities.push(activities::Model {
        id: 1,
        description: "Odd".to_string(),
        paid_by_id: A,
        group_id: G,
        time: T1,
        amount: whole(9),
        split_members: vec![B, B, C],
        split_amounts: vec![whole(3), whole(3), whole(3)],
        user_involvement: false,
        expense_logo: None,
        created_at: T1,
        updated_at: T1,
    });
    assert!(balance_of(&ledger, G, B).unwrap().same_value(&whole(-6)));
    assert!(balance_of(&ledger, G, C).unwrap().same_value(&whole(-3)));
    assert!(balance_of(&ledger, G, A).unwrap().same_value(&whole(9)));
}

#[test]
fn dues_give_zero_to_a_member_without_a_stored_share() {
    let mut ledger = ledger_with_group();
    ledger.activities.push(activities::Model {
        id: 1,
        description: "Edited by hand".to_string(),
        paid_by_id: A,
        group_id: G,
        time: T1,
        amount: whole(100),
        split_members: vec![A, B, C],
        split_amounts: vec![whole(40)],
        user_involvement: true,
        expense_logo: None,
        created_at: T1,
        updated_at: T1,
    });
    let detailed = get_dues_detailed(&ledger, G).dues;
    assert_eq!(detailed.len(), 1);
    let details = &detailed[0].split_details;
    assert_eq!(details.iter().map(|d| d.user_id).collect::<Vec<_>>(), vec![A, B, C]);
    assert!(details[0].amount.same_value(&whole(40)));
    assert!(details[1].amount.same_value(&whole(0)));
    assert!(details[2].amount.same_value(&whole(0)));
    let dues = get_dues_simplified(&ledger, G).unwrap().dues;
    assert!(dues[0].amount.same_value(&whole(60)));
    assert!(dues[1].amount.same_value(&whole(0)));
    assert!(dues[2].amount.same_value(&whole(0)));
}

#[test]
fn split_details_pair_members_with_shares() {
    let details = compute_split_details(&vec![A, B], &vec![whole(1), whole(2), whole(3)]);
    assert_eq!(details.len(), 2);
    assert_eq!(details[1].user_id, B);
    assert!(details[1].amount.same_value(&whole(2)));
    assert!(compute_split_details(&vec![], &vec![whole(1)]).is_empty());
}

#[test]
fn dues_that_cannot_be_held_are_reported() {
    let mut ledger = ledger_with_group();
    let most = amount(79_228_162_514_264_337_593_543_950_335, 0);
    for id in 1..=2 {
        ledger.activities.push(activities::Model {
            id,
            description: "Yacht".to_string(),
            paid_by_id: A,
            group_id: G,
            time: T1,
            amount: most,
            split_members: vec![B],
            split_amounts: vec![most],
            user_involvement: false,
            expense_logo: None,
            created_at: T1,
            updated_at: T1,
        });
    }
    assert!(matches!(get_dues_simplified(&ledger, G), Err(AppError::InternalServerError)));
    assert!(matches!(
        get_dues_handler(&ledger, A, GetDuesReq { group_id: G, simplify: true }),
        Err(AppError::InternalServerError)
    ));
    assert!(get_dues_handler(&ledger, A, GetDuesReq { group_id: G, simplify: false }).is_ok());
}

#[test]
fn dues_are_for_those_who_belong_to_the_group() {
    let ledger = ledger_with_group();
    assert!(matches!(
        get_dues_handler(&ledger, C, GetDuesReq { group_id: G, simplify: true }),
        Err(AppError::UserNotInGroup(_))
    ));
    assert!(matches!(
        get_dues_handler(&ledger, A, GetDuesReq { group_id: H, simplify: true }),
        Err(AppError::NotFound(_))
    ));
    assert!(matches!(
        get_dues_handler(&ledger, A, GetDuesReq { group_id: 0, simplify: false }),
        Err(AppError::ValidationError(_))
    ));
    assert!(matches!(
        get_dues_handler(&ledger, B, GetDuesReq { group_id: G, simplify: true }),
        Ok(DuesResponse::Simplified(_))
    ));
    assert!(matches!(
        get_dues_handler(&ledger, B, GetDuesReq { group_id: G, simplify: false }),
        Ok(DuesResponse::Detailed(_))
    ));
}

#[test]
fn two_members_share_a_dinner() {
    let mut ledger = ledger_with_group();
    create_activity(&mut ledger, A, dinner(G), 1, T2).unwrap();
    assert!(total_of(&ledger, G).same_value(&whole(100)));

    let dues = get_dues_simplified(&ledger, G).unwrap().dues;
    assert_eq!(dues.len(), 2);
    assert_eq!(dues[0].user_id, A);
    assert!(dues[0].amount.same_value(&whole(60)));
    assert_eq!(dues[1].user_id, B);
    assert!(dues[1].amount.same_value(&whole(-60)));

    let detailed = get_dues_detailed(&ledger, G).dues;
    assert_eq!(detailed.len(), 1);
    assert_eq!(detailed[0].activity_id, 1);
    assert_eq!(detailed[0].paid_by, A);
    assert_eq!(detailed[0].description, "Dinner");
    assert!(detailed[0].amount.same_value(&whole(100)));
    assert_eq!(detailed[0].split_details.len(), 2);
    assert_eq!(detailed[0].split_details[0].user_id, A);
    assert!(detailed[0].split_details[0].amount.same_value(&whole(40)));
    assert_eq!(detailed[0].split_details[1].user_id, B);
    assert!(detailed[0].split_details[1].amount.same_value(&whole(60)));

    let mut req = update(1, G);
    req.description = Some("Lunch".to_string());
    assert!(matches!(update_activity(&mut ledger, B, req, T2), Err(AppError::Unauthorized(_))));

    delete_activity(&mut ledger, A, DeleteActivityReq { activity_id: 1, group_id: G }, T2)
        .unwrap();
    assert!(total_of(&ledger, G).same_value(&whole(0)));
    assert!(get_dues_simplified(&ledger, G).unwrap().dues.is_empty());
    assert!(get_dues_detailed(&ledger, G).dues.is_empty());
}

#[test]
fn a_total_follows_a_run_of_requests() {
    let mut ledger = ledger_with_group();
    let mut expected = 0;
    for id in 1..=5u128 {
        let n = (id as i64) * 10;
        let req = CreateActivityReq::new(
            "Item".to_string(),
            G,
            whole(n),
            vec![A, B],
            vec![whole(n - 1), whole(1)],
            None,
        );
        create_activity(&mut ledger, A, req, id, T1).unwrap();
        expected += n;
        assert!(total_of(&ledger, G).same_value(&whole(expected)));
    }
    let mut req = update(3, G);
    req.amount = Some(whole(7));
    req.split_members = Some(vec![B]);
    req.split_amounts = Some(vec![whole(7)]);
    update_activity(&mut ledger, A, req, T2).unwrap();
    expected += 7 - 30;
    assert!(total_of(&ledger, G).same_value(&whole(expected)));
    delete_activity(&mut ledger, A, DeleteActivityReq { activity_id: 1, group_id: G }, T2)
        .unwrap();
    expected -= 10;
    assert!(total_of(&ledger, G).same_value(&whole(expected)));
    let list: Vec<Money> = ledger.activities.iter().map(|a| a.amount).collect();
    assert!(Money::sum(&list).unwrap().same_value(&total_of(&ledger, G)));
    let dues = get_dues_simplified(&ledger, G).unwrap().dues;
    let sum = Money::sum(&dues.iter().map(|d| d.amount).collect()).unwrap();
    assert!(sum.same_value(&Money::zero()));
}

#[test]
fn a_new_group_has_spent_nothing() {
    let ledger = ledger_with_group();
    let group: &groups::Model = &ledger.groups[0];
    assert!(group.total_expense.same_value(&Money::zero()));
    assert_eq!(group.creator_id, A);
}
