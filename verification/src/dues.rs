//! The dues of a group, worked out from its activities.
//!
//! The simplified dues give each user one net balance: whoever paid for an
//! activity is credited with its amount, and each member of its split is
//! debited with the share that stands at the member's place. A balance above
//! zero is owed to the user; with a balance below zero the user owes.
//!
//! The detailed dues give each activity with the share of each member.
//!
//! A member of a split for whom no share is stored has a share of zero.

use crate::entities::activities::Activity;
use crate::models::activities::{DetailedDue, SplitDetail, UserDue};
use crate::money::{exact_difference, exact_sum, lemma_zero_units, total_units, Money};
use vstd::prelude::*;

verus! {

/// The share at a place of a split: the amount that stands there, or zero
/// where none does.
pub open spec fn share_at(amounts: Seq<Money>, i: int) -> Money {
    if 0 <= i < amounts.len() {
        amounts[i]
    } else {
        Money::spec_zero()
    }
}

/// The members of a split, each with the share at the member's place.
pub open spec fn split_details(members: Seq<u128>, amounts: Seq<Money>) -> Seq<SplitDetail> {
    Seq::new(
        members.len(),
        |i: int| SplitDetail { user_id: members[i], amount: share_at(amounts, i) },
    )
}

/// One activity with the share of each of its members, as a value.
pub struct Breakdown {
    pub activity_id: u128,
    pub description: Seq<char>,
    pub paid_by: u128,
    pub amount: Money,
    pub split_details: Seq<SplitDetail>,
}

impl View for DetailedDue {
    type V = Breakdown;

    open spec fn view(&self) -> Breakdown {
        Breakdown {
            activity_id: self.activity_id,
            description: self.description@,
            paid_by: self.paid_by,
            amount: self.amount,
            split_details: self.split_details@,
        }
    }
}

/// The breakdown of an activity.
pub open spec fn breakdown(a: Activity) -> Breakdown {
    Breakdown {
        activity_id: a.id,
        description: a.description,
        paid_by: a.paid_by_id,
        amount: a.amount,
        split_details: split_details(a.split_members, a.split_amounts),
    }
}

/// The breakdowns of the activities of a group, in the order of the rows.
pub open spec fn detailed_dues(rows: Seq<Activity>, group_id: u128) -> Seq<Breakdown>
    decreases rows.len(),
{
    if rows.len() == 0 {
        Seq::empty()
    } else if rows.last().group_id == group_id {
        detailed_dues(rows.drop_last(), group_id).push(breakdown(rows.last()))
    } else {
        detailed_dues(rows.drop_last(), group_id)
    }
}

/// The breakdowns that a list of detailed dues holds.
pub open spec fn breakdowns(dues: Seq<DetailedDue>) -> Seq<Breakdown> {
    dues.map_values(|d: DetailedDue| d@)
}

/// The place of a user's balance in a table of balances, if the user has one.
pub open spec fn place_of(table: Seq<UserDue>, user_id: u128) -> Option<int>
    decreases table.len(),
{
    if table.len() == 0 {
        None
    } else {
        match place_of(table.drop_last(), user_id) {
            Some(i) => Some(i),
            None => if table.last().user_id == user_id {
                Some(table.len() - 1)
            } else {
                None
            },
        }
    }
}

/// The table after an amount is added to the balance of a user, who starts
/// from zero if the table does not hold the user yet. `None` if the new
/// balance is not exact.
pub open spec fn credited(table: Seq<UserDue>, user_id: u128, amount: Money) -> Option<
    Seq<UserDue>,
> {
    match place_of(table, user_id) {
        Some(k) => match exact_sum(table[k].amount, amount) {
            Some(v) => Some(table.update(k, UserDue { user_id, amount: v })),
            None => None,
        },
        None => match exact_sum(Money::spec_zero(), amount) {
            Some(v) => Some(table.push(UserDue { user_id, amount: v })),
            None => None,
        },
    }
}

/// The table after an amount is taken from the balance of a user, who starts
/// from zero if the table does not hold the user yet. `None` if the new
/// balance is not exact.
pub open spec fn debited(table: Seq<UserDue>, user_id: u128, amount: Money) -> Option<
    Seq<UserDue>,
> {
    match place_of(table, user_id) {
        Some(k) => match exact_difference(table[k].amount, amount) {
            Some(v) => Some(table.update(k, UserDue { user_id, amount: v })),
            None => None,
        },
        None => match exact_difference(Money::spec_zero(), amount) {
            Some(v) => Some(table.push(UserDue { user_id, amount: v })),
            None => None,
        },
    }
}

/// The table after the first `n` members of a split are debited, each with
/// the share at the member's place.
pub open spec fn shares_debited(
    table: Seq<UserDue>,
    members: Seq<u128>,
    amounts: Seq<Money>,
    n: nat,
) -> Option<Seq<UserDue>>
    decreases n,
{
    if n == 0 {
        Some(table)
    } else {
        match shares_debited(table, members, amounts, (n - 1) as nat) {
            Some(t) => debited(t, members[n - 1], share_at(amounts, n - 1)),
            None => None,
        }
    }
}

/// The table after an activity is entered: who paid is credited with the
/// amount, then each member of the split is debited.
pub open spec fn entered(table: Seq<UserDue>, a: Activity) -> Option<Seq<UserDue>> {
    match credited(table, a.paid_by_id, a.amount) {
        Some(t) => shares_debited(t, a.split_members, a.split_amounts, a.split_members.len()),
        None => None,
    }
}

/// The table after those of the first `n` rows that belong to the group are
/// entered, starting from an empty table.
pub open spec fn group_entered(rows: Seq<Activity>, group_id: u128, n: nat) -> Option<
    Seq<UserDue>,
>
    decreases n,
{
    if n == 0 {
        Some(Seq::empty())
    } else {
        match group_entered(rows, group_id, (n - 1) as nat) {
            Some(t) => if rows[n - 1].group_id == group_id {
                entered(t, rows[n - 1])
            } else {
                Some(t)
            },
            None => None,
        }
    }
}

/// The simplified dues of a group: one balance for each user who paid for an
/// activity of the group or is a member of a split, in the order in which the
/// users are first met. `None` if a balance on the way is not exact.
pub open spec fn simplified_dues(rows: Seq<Activity>, group_id: u128) -> Option<Seq<UserDue>> {
    group_entered(rows, group_id, rows.len())
}

/// Where a place is found for a user, the balance there is the user's, and
/// none before it is; where none is found, no balance is the user's.
pub proof fn lemma_place_of(table: Seq<UserDue>, user_id: u128)
    ensures
        match place_of(table, user_id) {
            Some(k) => 0 <= k < table.len() && table[k].user_id == user_id && forall|j: int|
                0 <= j < k ==> (#[trigger] table[j]).user_id != user_id,
            None => forall|j: int| 0 <= j < table.len() ==> (#[trigger] table[j]).user_id != user_id,
        },
    decreases table.len(),
{
    if table.len() > 0 {
        lemma_place_of(table.drop_last(), user_id);
        assert forall|j: int| 0 <= j < table.len() - 1 implies table[j] == table.drop_last()[j] by {}
    }
}

/// Once the first rows cannot be entered, the rows cannot.
pub proof fn lemma_group_entered_stays_none(rows: Seq<Activity>, group_id: u128, n: nat, m: nat)
    requires
        n <= m,
        group_entered(rows, group_id, n) is None,
    ensures
        group_entered(rows, group_id, m) is None,
    decreases m,
{
    if n < m {
        lemma_group_entered_stays_none(rows, group_id, n, (m - 1) as nat);
    }
}

/// Once the first members cannot be debited, the members cannot.
pub proof fn lemma_shares_debited_stays_none(
    table: Seq<UserDue>,
    members: Seq<u128>,
    amounts: Seq<Money>,
    n: nat,
    m: nat,
)
    requires
        n <= m,
        shares_debited(table, members, amounts, n) is None,
    ensures
        shares_debited(table, members, amounts, m) is None,
    decreases m,
{
    if n < m {
        lemma_shares_debited_stays_none(table, members, amounts, n, (m - 1) as nat);
    }
}

/// The balance that a table holds for a user: zero for a user whom it does
/// not hold.
pub open spec fn balance_of(table: Seq<UserDue>, user_id: u128) -> int {
    match place_of(table, user_id) {
        Some(k) => table[k].amount.units(),
        None => 0,
    }
}

/// No user has two balances.
pub open spec fn distinct_users(table: Seq<UserDue>) -> bool {
    forall|j: int, k: int|
        0 <= j < k < table.len() ==> (#[trigger] table[j]).user_id != (#[trigger] table[k]).user_id
}

/// All balances of a table, added.
pub open spec fn table_total(table: Seq<UserDue>) -> int
    decreases table.len(),
{
    if table.len() == 0 {
        0
    } else {
        table_total(table.drop_last()) + table.last().amount.units()
    }
}

/// What a user owes for the first `n` places of a split: the shares at the
/// places where the user stands.
pub open spec fn owed(members: Seq<u128>, amounts: Seq<Money>, user_id: u128, n: nat) -> int
    decreases n,
{
    if n == 0 {
        0
    } else {
        owed(members, amounts, user_id, (n - 1) as nat) + if members[n - 1] == user_id {
            share_at(amounts, n - 1).units()
        } else {
            0
        }
    }
}

/// The shares at the first `n` places of a split, added.
pub open spec fn shares_total(amounts: Seq<Money>, n: nat) -> int
    decreases n,
{
    if n == 0 {
        0
    } else {
        shares_total(amounts, (n - 1) as nat) + share_at(amounts, n - 1).units()
    }
}

/// What an activity does to the balance of a user: the amount if the user
/// paid, less what the user owes for the split.
pub open spec fn effect(a: Activity, user_id: u128) -> int {
    (if a.paid_by_id == user_id {
        a.amount.units()
    } else {
        0
    }) - owed(a.split_members, a.split_amounts, user_id, a.split_members.len())
}

/// The net balance of a user over those of the first `n` rows that belong to
/// the group.
pub open spec fn net_balance(rows: Seq<Activity>, group_id: u128, user_id: u128, n: nat) -> int
    decreases n,
{
    if n == 0 {
        0
    } else {
        net_balance(rows, group_id, user_id, (n - 1) as nat) + if rows[n - 1].group_id
            == group_id {
            effect(rows[n - 1], user_id)
        } else {
            0
        }
    }
}

/// The split of an activity is balanced when every member has a share and
/// the shares add up to the amount.
pub open spec fn balanced(a: Activity) -> bool {
    &&& a.split_members.len() == a.split_amounts.len()
    &&& total_units(a.split_amounts) == a.amount.units()
}

/// By how much the amounts of the group's activities among the first `n`
/// rows exceed the shares of their splits.
pub open spec fn surplus(rows: Seq<Activity>, group_id: u128, n: nat) -> int
    decreases n,
{
    if n == 0 {
        0
    } else {
        surplus(rows, group_id, (n - 1) as nat) + if rows[n - 1].group_id == group_id {
            rows[n - 1].amount.units() - shares_total(
                rows[n - 1].split_amounts,
                rows[n - 1].split_members.len(),
            )
        } else {
            0
        }
    }
}

/// Tables that hold the same users at the same places give each user the
/// same place.
proof fn lemma_place_of_same_users(a: Seq<UserDue>, b: Seq<UserDue>, user_id: u128)
    requires
        a.len() == b.len(),
        forall|i: int| 0 <= i < a.len() ==> (#[trigger] a[i]).user_id == b[i].user_id,
    ensures
        place_of(a, user_id) == place_of(b, user_id),
    decreases a.len(),
{
    if a.len() > 0 {
        assert(a.last().user_id == b.last().user_id);
        assert forall|i: int| 0 <= i < a.len() - 1 implies (#[trigger] a.drop_last()[i]).user_id
            == b.drop_last()[i].user_id by {
            assert(a[i].user_id == b[i].user_id);
        }
        lemma_place_of_same_users(a.drop_last(), b.drop_last(), user_id);
    }
}

/// Putting another balance in the place of one changes the total by the
/// difference of the two.
proof fn lemma_table_total_update(table: Seq<UserDue>, k: int, entry: UserDue)
    requires
        0 <= k < table.len(),
    ensures
        table_total(table.update(k, entry)) == table_total(table) - table[k].amount.units()
            + entry.amount.units(),
    decreases table.len(),
{
    let changed = table.update(k, entry);
    if k == table.len() - 1 {
        assert(changed.drop_last() == table.drop_last());
    } else {
        assert(changed.drop_last() == table.drop_last().update(k, entry));
        lemma_table_total_update(table.drop_last(), k, entry);
    }
}

/// No user has two balances in a table exactly when every balance stands at
/// the place of its user.
proof fn lemma_distinct_push(table: Seq<UserDue>, entry: UserDue)
    requires
        distinct_users(table),
        place_of(table, entry.user_id) is None,
    ensures
        distinct_users(table.push(entry)),
{
    lemma_place_of(table, entry.user_id);
    let longer = table.push(entry);
    assert forall|j: int, k: int| 0 <= j < k < longer.len() implies (#[trigger] longer[j]).user_id
        != (#[trigger] longer[k]).user_id by {
        if k < table.len() {
            assert(table[j].user_id != table[k].user_id);
        } else {
            assert(table[j].user_id != entry.user_id);
        }
    }
}

/// What a change of one balance by a number of units does to a table: the
/// user's balance moves by that number, every other balance stays, the total
/// moves by that number, the user is held and no other user is new, and no
/// user comes to have two balances.
pub open spec fn moved(
    before: Seq<UserDue>,
    after: Seq<UserDue>,
    user_id: u128,
    units: int,
) -> bool {
    &&& forall|w: u128|
        #[trigger] balance_of(after, w) == balance_of(before, w) + if w == user_id {
            units
        } else {
            0
        }
    &&& forall|w: u128|
        #[trigger] place_of(after, w) is Some <==> place_of(before, w) is Some || w == user_id
    &&& table_total(after) == table_total(before) + units
    &&& distinct_users(before) ==> distinct_users(after)
}

/// Whether a user stands at one of the first `n` places of a split.
pub open spec fn among(members: Seq<u128>, user_id: u128, n: nat) -> bool
    decreases n,
{
    n > 0 && (among(members, user_id, (n - 1) as nat) || members[n - 1] == user_id)
}

/// Whether a user paid for an activity or is a member of its split.
pub open spec fn takes_part(a: Activity, user_id: u128) -> bool {
    a.paid_by_id == user_id || among(a.split_members, user_id, a.split_members.len())
}

/// Whether a user takes part in one of the group's activities among the
/// first `n` rows.
pub open spec fn met(rows: Seq<Activity>, group_id: u128, user_id: u128, n: nat) -> bool
    decreases n,
{
    n > 0 && (met(rows, group_id, user_id, (n - 1) as nat) || (rows[n - 1].group_id == group_id
        && takes_part(rows[n - 1], user_id)))
}

/// A change to the balance of a user's first place, or a new balance for a
/// user who had none, moves the table by the units that were added.
proof fn lemma_posting_moves(
    table: Seq<UserDue>,
    user_id: u128,
    amount: Money,
    units: int,
)
    requires
        amount.units() == balance_of(table, user_id) + units,
    ensures
        moved(
            table,
            match place_of(table, user_id) {
                Some(k) => table.update(k, UserDue { user_id, amount }),
                None => table.push(UserDue { user_id, amount }),
            },
            user_id,
            units,
        ),
{
    lemma_place_of(table, user_id);
    let entry = UserDue { user_id, amount };
    match place_of(table, user_id) {
        Some(k) => {
            let after = table.update(k, entry);
            lemma_table_total_update(table, k, entry);
            assert forall|w: u128| #[trigger]
                balance_of(after, w) == balance_of(table, w) + if w == user_id {
                    units
                } else {
                    0
                } by {
                lemma_place_of_same_users(table, after, w);
                lemma_place_of(table, w);
            }
            assert forall|w: u128| #[trigger]
                place_of(after, w) is Some <==> place_of(table, w) is Some || w == user_id by {
                lemma_place_of_same_users(table, after, w);
            }
            if distinct_users(table) {
                assert forall|i: int, j: int| 0 <= i < j < after.len() implies (
                #[trigger] after[i]).user_id != (#[trigger] after[j]).user_id by {
                    assert(table[i].user_id != table[j].user_id);
                }
            }
        },
        None => {
            let after = table.push(entry);
            assert(after.drop_last() == table);
            assert forall|w: u128| #[trigger]
                balance_of(after, w) == balance_of(table, w) + if w == user_id {
                    units
                } else {
                    0
                } by {
                lemma_place_of(table, w);
            }
            if distinct_users(table) {
                lemma_distinct_push(table, entry);
            }
        },
    }
}

/// Crediting a user moves the table by the units of the amount.
pub proof fn lemma_credited_moves(table: Seq<UserDue>, user_id: u128, amount: Money)
    requires
        credited(table, user_id, amount) is Some,
    ensures
        moved(table, credited(table, user_id, amount)->0, user_id, amount.units()),
{
    lemma_zero_units();
    match place_of(table, user_id) {
        Some(k) => {
            let v = exact_sum(table[k].amount, amount)->0;
            lemma_posting_moves(table, user_id, v, amount.units());
        },
        None => {
            let v = exact_sum(Money::spec_zero(), amount)->0;
            lemma_posting_moves(table, user_id, v, amount.units());
        },
    }
}

/// Debiting a user moves the table by the units of the amount, downwards.
pub proof fn lemma_debited_moves(table: Seq<UserDue>, user_id: u128, amount: Money)
    requires
        debited(table, user_id, amount) is Some,
    ensures
        moved(table, debited(table, user_id, amount)->0, user_id, -amount.units()),
{
    lemma_zero_units();
    match place_of(table, user_id) {
        Some(k) => {
            let v = exact_difference(table[k].amount, amount)->0;
            lemma_posting_moves(table, user_id, v, -amount.units());
        },
        None => {
            let v = exact_difference(Money::spec_zero(), amount)->0;
            lemma_posting_moves(table, user_id, v, -amount.units());
        },
    }
}

/// Debiting the first `n` members of a split takes from each user what the
/// user owes for those places, and from the total the shares at those places.
pub proof fn lemma_shares_debited_moves(
    table: Seq<UserDue>,
    members: Seq<u128>,
    amounts: Seq<Money>,
    n: nat,
)
    requires
        shares_debited(table, members, amounts, n) is Some,
    ensures
        forall|w: u128| #[trigger]
            balance_of(shares_debited(table, members, amounts, n)->0, w) == balance_of(table, w)
                - owed(members, amounts, w, n),
        forall|w: u128| #[trigger]
            place_of(shares_debited(table, members, amounts, n)->0, w) is Some <==> place_of(
                table,
                w,
            ) is Some || among(members, w, n),
        table_total(shares_debited(table, members, amounts, n)->0) == table_total(table)
            - shares_total(amounts, n),
        distinct_users(table) ==> distinct_users(shares_debited(table, members, amounts, n)->0),
    decreases n,
{
    if n > 0 {
        let m = (n - 1) as nat;
        lemma_shares_debited_moves(table, members, amounts, m);
        let mid = shares_debited(table, members, amounts, m)->0;
        lemma_debited_moves(mid, members[n - 1], share_at(amounts, n - 1));
        let end = shares_debited(table, members, amounts, n)->0;
        assert forall|w: u128| #[trigger]
            balance_of(end, w) == balance_of(table, w) - owed(members, amounts, w, n) by {
            assert(balance_of(mid, w) == balance_of(table, w) - owed(members, amounts, w, m));
        }
        assert forall|w: u128| #[trigger]
            place_of(end, w) is Some <==> place_of(table, w) is Some || among(members, w, n) by {
            assert(place_of(mid, w) is Some <==> place_of(table, w) is Some || among(
                members,
                w,
                m,
            ));
        }
    }
}

/// Entering an activity moves the balance of each user by what the activity
/// does to it, and the total by the amount less the shares of the split.
pub proof fn lemma_entered_moves(table: Seq<UserDue>, a: Activity)
    requires
        entered(table, a) is Some,
    ensures
        forall|w: u128| #[trigger]
            balance_of(entered(table, a)->0, w) == balance_of(table, w) + effect(a, w),
        forall|w: u128| #[trigger]
            place_of(entered(table, a)->0, w) is Some <==> place_of(table, w) is Some
                || takes_part(a, w),
        table_total(entered(table, a)->0) == table_total(table) + a.amount.units()
            - shares_total(a.split_amounts, a.split_members.len()),
        distinct_users(table) ==> distinct_users(entered(table, a)->0),
{
    lemma_credited_moves(table, a.paid_by_id, a.amount);
    let mid = credited(table, a.paid_by_id, a.amount)->0;
    lemma_shares_debited_moves(mid, a.split_members, a.split_amounts, a.split_members.len());
    let end = entered(table, a)->0;
    assert forall|w: u128| #[trigger]
        balance_of(end, w) == balance_of(table, w) + effect(a, w) by {
        assert(balance_of(mid, w) == balance_of(table, w) + if w == a.paid_by_id {
            a.amount.units()
        } else {
            0
        });
    }
    assert forall|w: u128| #[trigger]
        place_of(end, w) is Some <==> place_of(table, w) is Some || takes_part(a, w) by {
        assert(place_of(mid, w) is Some <==> place_of(table, w) is Some || w == a.paid_by_id);
    }
}

/// The table that the first `n` rows come to holds for each user the net
/// balance over those rows, holds the users who take part in them and no
/// others, holds no user twice, and has as its total what the amounts exceed
/// the shares by.
pub proof fn lemma_group_entered_balances(rows: Seq<Activity>, group_id: u128, n: nat)
    requires
        group_entered(rows, group_id, n) is Some,
    ensures
        forall|w: u128| #[trigger]
            balance_of(group_entered(rows, group_id, n)->0, w) == net_balance(
                rows,
                group_id,
                w,
                n,
            ),
        forall|w: u128| #[trigger]
            place_of(group_entered(rows, group_id, n)->0, w) is Some <==> met(
                rows,
                group_id,
                w,
                n,
            ),
        table_total(group_entered(rows, group_id, n)->0) == surplus(rows, group_id, n),
        distinct_users(group_entered(rows, group_id, n)->0),
    decreases n,
{
    if n > 0 {
        let m = (n - 1) as nat;
        lemma_group_entered_balances(rows, group_id, m);
        let mid = group_entered(rows, group_id, m)->0;
        let end = group_entered(rows, group_id, n)->0;
        if rows[n - 1].group_id == group_id {
            lemma_entered_moves(mid, rows[n - 1]);
        }
        assert forall|w: u128| #[trigger]
            balance_of(end, w) == net_balance(rows, group_id, w, n) by {
            assert(balance_of(mid, w) == net_balance(rows, group_id, w, m));
        }
        assert forall|w: u128| #[trigger]
            place_of(end, w) is Some <==> met(rows, group_id, w, n) by {
            assert(place_of(mid, w) is Some <==> met(rows, group_id, w, m));
        }
    }
}

/// The shares at all places of a split add up to the amounts of the split.
pub proof fn lemma_shares_total_is_total_units(amounts: Seq<Money>)
    ensures
        shares_total(amounts, amounts.len()) == total_units(amounts),
    decreases amounts.len(),
{
    if amounts.len() > 0 {
        let shorter = amounts.drop_last();
        lemma_shares_total_is_total_units(shorter);
        lemma_shares_total_prefix(amounts, shorter, shorter.len());
    }
}

/// The shares at the first places of a split depend on those places alone.
proof fn lemma_shares_total_prefix(a: Seq<Money>, b: Seq<Money>, n: nat)
    requires
        n <= a.len(),
        n <= b.len(),
        forall|i: int| 0 <= i < n ==> a[i] == b[i],
    ensures
        shares_total(a, n) == shares_total(b, n),
    decreases n,
{
    if n > 0 {
        lemma_shares_total_prefix(a, b, (n - 1) as nat);
    }
}

/// Where the split of every activity of the group is balanced, the amounts
/// exceed the shares by nothing.
pub proof fn lemma_no_surplus(rows: Seq<Activity>, group_id: u128, n: nat)
    requires
        n <= rows.len(),
        forall|i: int|
            0 <= i < rows.len() && (#[trigger] rows[i]).group_id == group_id ==> balanced(rows[i]),
    ensures
        surplus(rows, group_id, n) == 0,
    decreases n,
{
    if n > 0 {
        lemma_no_surplus(rows, group_id, (n - 1) as nat);
        if rows[n - 1].group_id == group_id {
            assert(balanced(rows[n - 1]));
            lemma_shares_total_is_total_units(rows[n - 1].split_amounts);
        }
    }
}

/// The simplified dues give every user the net balance over the activities
/// of the group: the amounts that the user paid, less the shares at the
/// places where the user stands in a split. A user is given a balance exactly
/// if the user paid for an activity of the group or is a member of a split,
/// no user is given two, and a user who is given none has a net balance of
/// zero.
pub proof fn lemma_dues_are_net_balances(rows: Seq<Activity>, group_id: u128)
    requires
        simplified_dues(rows, group_id) is Some,
    ensures
        distinct_users(simplified_dues(rows, group_id)->0),
        forall|k: int|
            0 <= k < simplified_dues(rows, group_id)->0.len() ==> (#[trigger] simplified_dues(
                rows,
                group_id,
            )->0[k]).amount.units() == net_balance(
                rows,
                group_id,
                simplified_dues(rows, group_id)->0[k].user_id,
                rows.len(),
            ),
        forall|w: u128|
            place_of(simplified_dues(rows, group_id)->0, w) is None ==> #[trigger] net_balance(
                rows,
                group_id,
                w,
                rows.len(),
            ) == 0,
        forall|w: u128|
            place_of(simplified_dues(rows, group_id)->0, w) is Some <==> #[trigger] met(
                rows,
                group_id,
                w,
                rows.len(),
            ),
{
    let table = simplified_dues(rows, group_id)->0;
    lemma_group_entered_balances(rows, group_id, rows.len());
    assert forall|k: int| 0 <= k < table.len() implies (#[trigger] table[k]).amount.units()
        == net_balance(rows, group_id, table[k].user_id, rows.len()) by {
        let w = table[k].user_id;
        lemma_place_of(table, w);
        assert(balance_of(table, w) == net_balance(rows, group_id, w, rows.len()));
        let p = place_of(table, w)->0;
        if p != k {
            if p < k {
                assert(table[p].user_id != table[k].user_id);
            } else {
                assert(table[k].user_id != table[p].user_id);
            }
        }
    }
    assert forall|w: u128| place_of(table, w) is None implies #[trigger] net_balance(
        rows,
        group_id,
        w,
        rows.len(),
    ) == 0 by {
        assert(balance_of(table, w) == net_balance(rows, group_id, w, rows.len()));
    }
}

/// Where the split of every activity of a group is balanced, the simplified
/// dues of the group add up to zero: what is owed to some is owed by others.
pub proof fn lemma_dues_sum_to_zero(rows: Seq<Activity>, group_id: u128)
    requires
        simplified_dues(rows, group_id) is Some,
        forall|i: int|
            0 <= i < rows.len() && (#[trigger] rows[i]).group_id == group_id ==> balanced(rows[i]),
    ensures
        table_total(simplified_dues(rows, group_id)->0) == 0,
{
    lemma_group_entered_balances(rows, group_id, rows.len());
    lemma_no_surplus(rows, group_id, rows.len());
}

/// The table that a map of balances stands for when its users are listed in
/// a given order.
pub open spec fn table_of(order: Seq<u128>, amounts: Map<u128, Money>) -> Seq<UserDue> {
    Seq::new(order.len(), |k: int| UserDue { user_id: order[k], amount: amounts[order[k]] })
}

/// An order lists the users of a map of balances when it names each of them
/// once, and no one else.
pub open spec fn lists(order: Seq<u128>, amounts: Map<u128, Money>) -> bool {
    &&& forall|i: int, j: int| 0 <= i < j < order.len() ==> order[i] != order[j]
    &&& forall|u: u128| amounts.contains_key(u) <==> order.contains(u)
}

/// A user has a place in the table exactly if the map holds the user, and the
/// balance at that place is the one that the map holds.
pub proof fn lemma_table_of_place(order: Seq<u128>, amounts: Map<u128, Money>, user_id: u128)
    requires
        lists(order, amounts),
    ensures
        match place_of(table_of(order, amounts), user_id) {
            Some(k) => 0 <= k < order.len() && order[k] == user_id && amounts.contains_key(user_id)
                && table_of(order, amounts)[k].amount == amounts[user_id],
            None => !amounts.contains_key(user_id),
        },
{
    let table = table_of(order, amounts);
    lemma_place_of(table, user_id);
    match place_of(table, user_id) {
        Some(k) => {
            assert(order[k] == table[k].user_id);
            assert(order.contains(user_id));
        },
        None => {
            if order.contains(user_id) {
                let k = choose|k: int| 0 <= k < order.len() && order[k] == user_id;
                assert(table[k].user_id == user_id);
            }
        },
    }
}

/// A new balance for a user whom the map holds stands in the table where the
/// old one stood.
pub proof fn lemma_table_of_change(
    order: Seq<u128>,
    amounts: Map<u128, Money>,
    user_id: u128,
    amount: Money,
)
    requires
        lists(order, amounts),
        amounts.contains_key(user_id),
    ensures
        lists(order, amounts.insert(user_id, amount)),
        table_of(order, amounts.insert(user_id, amount)) == table_of(order, amounts).update(
            place_of(table_of(order, amounts), user_id)->0,
            UserDue { user_id, amount },
        ),
{
    lemma_table_of_place(order, amounts, user_id);
    let k = place_of(table_of(order, amounts), user_id)->0;
    let after = amounts.insert(user_id, amount);
    assert forall|u: u128| after.contains_key(u) <==> order.contains(u) by {
        assert(amounts.contains_key(u) <==> order.contains(u));
    }
    assert forall|i: int| 0 <= i < order.len() && i != k implies order[i] != user_id by {
        if i < k {
            assert(order[i] != order[k]);
        } else {
            assert(order[k] != order[i]);
        }
    }
    assert(table_of(order, after) =~= table_of(order, amounts).update(
        k,
        UserDue { user_id, amount },
    ));
}

/// A balance for a user whom the map does not hold yet stands last in the
/// table.
pub proof fn lemma_table_of_new(
    order: Seq<u128>,
    amounts: Map<u128, Money>,
    user_id: u128,
    amount: Money,
)
    requires
        lists(order, amounts),
        !amounts.contains_key(user_id),
    ensures
        lists(order.push(user_id), amounts.insert(user_id, amount)),
        table_of(order.push(user_id), amounts.insert(user_id, amount)) == table_of(
            order,
            amounts,
        ).push(UserDue { user_id, amount }),
{
    let longer = order.push(user_id);
    let after = amounts.insert(user_id, amount);
    assert forall|i: int| 0 <= i < order.len() implies order[i] != user_id by {
        assert(order.contains(order[i]));
    }
    assert forall|u: u128| after.contains_key(u) <==> longer.contains(u) by {
        assert(amounts.contains_key(u) <==> order.contains(u));
        if order.contains(u) {
            let i = choose|i: int| 0 <= i < order.len() && order[i] == u;
            assert(longer[i] == u);
        }
        if u == user_id {
            assert(longer[order.len() as int] == u);
        }
        if longer.contains(u) && u != user_id {
            let i = choose|i: int| 0 <= i < longer.len() && longer[i] == u;
            assert(order[i] == u);
        }
    }
    assert(table_of(longer, after) =~= table_of(order, amounts).push(
        UserDue { user_id, amount },
    ));
}

} // verus!
