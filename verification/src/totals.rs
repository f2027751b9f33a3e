//! The total expense of a group: the amounts of its activities, added. Each
//! group carries the total as a number of its own, which is set anew from the
//! activities whenever one of them is logged, changed or deleted.

use crate::entities::activities::Activity;
use crate::entities::groups;
use crate::entities::groups::Group;
use crate::ledger::{group_rows, Ledger, Tables};
use crate::money::{
    exact_difference, lemma_running_sum_units, lemma_total_units_push, running_sum,
    total_units, Money,
};
use vstd::prelude::*;

verus! {

/// The amounts of the activities of a group, in the order of the rows.
pub open spec fn group_amounts(rows: Seq<Activity>, group_id: u128) -> Seq<Money>
    decreases rows.len(),
{
    if rows.len() == 0 {
        Seq::empty()
    } else if rows.last().group_id == group_id {
        group_amounts(rows.drop_last(), group_id).push(rows.last().amount)
    } else {
        group_amounts(rows.drop_last(), group_id)
    }
}

/// What the activities of a group amount to, in units.
pub open spec fn group_total_units(rows: Seq<Activity>, group_id: u128) -> int {
    total_units(group_amounts(rows, group_id))
}

/// The amounts of the activities of a group added one by one, as long as
/// every partial sum is exact. Zero for a group without activities.
pub open spec fn group_total(rows: Seq<Activity>, group_id: u128) -> Option<Money> {
    running_sum(group_amounts(rows, group_id))
}

/// A group with its total set, and marked as changed at the given moment.
pub open spec fn totalled(g: Group, total: Money, now: i64) -> Group {
    Group { total_expense: total, updated_at: now, ..g }
}

/// The groups, with the total set in each row of the given group.
pub open spec fn with_total(rows: Seq<Group>, group_id: u128, total: Money, now: i64) -> Seq<
    Group,
> {
    Seq::new(
        rows.len(),
        |i: int|
            if rows[i].id == group_id {
                totalled(rows[i], total, now)
            } else {
                rows[i]
            },
    )
}

/// The total that a group carries is settled when it is what its activities
/// amount to.
pub open spec fn settled(t: Tables, group_id: u128) -> bool {
    forall|i: int|
        0 <= i < t.groups.len() && (#[trigger] t.groups[i]).id == group_id
            ==> t.groups[i].total_expense.units() == group_total_units(t.activities, group_id)
}

/// Adds the amounts of the activities of a group.
pub fn sum_group(ledger: &Ledger, group_id: u128) -> (r: Option<Money>)
    ensures
        r == group_total(ledger@.activities, group_id),
        r matches Some(t) ==> t.units() == group_total_units(ledger@.activities, group_id),
{
    let mut total = Money::zero();
    let mut i: usize = 0;
    while i < ledger.activities.len()
        invariant
            i <= ledger.activities.len(),
            group_total(ledger@.activities.take(i as int), group_id) == Some(total),
        decreases ledger.activities.len() - i,
    {
        proof {
            assert(ledger@.activities.take(i + 1).drop_last() == ledger@.activities.take(
                i as int,
            ));
            assert(ledger@.activities.take(i + 1).last() == ledger@.activities[i as int]);
        }
        if ledger.activities[i].group_id == group_id {
            proof {
                assert(group_amounts(ledger@.activities.take(i + 1), group_id).drop_last()
                    == group_amounts(ledger@.activities.take(i as int), group_id));
            }
            match total.checked_add(&ledger.activities[i].amount) {
                Some(next) => {
                    total = next;
                },
                None => {
                    proof {
                        lemma_group_total_stays_none(ledger@.activities, group_id, i + 1);
                    }
                    return None;
                },
            }
        }
        i += 1;
    }
    proof {
        assert(ledger@.activities.take(i as int) == ledger@.activities);
        lemma_running_sum_units(group_amounts(ledger@.activities, group_id));
    }
    Some(total)
}

/// Sets the total in each row of the given group.
pub fn set_total(rows: &mut Vec<groups::Model>, group_id: u128, total: Money, now: i64)
    ensures
        group_rows(final(rows)@) == with_total(group_rows(old(rows)@), group_id, total, now),
{
    let mut i: usize = 0;
    while i < rows.len()
        invariant
            i <= rows.len(),
            rows.len() == old(rows).len(),
            forall|k: int|
                0 <= k < i ==> (#[trigger] rows@[k])@ == with_total(
                    group_rows(old(rows)@),
                    group_id,
                    total,
                    now,
                )[k],
            forall|k: int| i <= k < rows.len() ==> (#[trigger] rows@[k]) == old(rows)@[k],
        decreases rows.len() - i,
    {
        if rows[i].id == group_id {
            rows[i].total_expense = total;
            rows[i].updated_at = now;
        }
        i += 1;
    }
    proof {
        assert(group_rows(rows@) =~= with_total(group_rows(old(rows)@), group_id, total, now));
    }
}

/// Once the amounts of the first activities have no exact sum, those of all
/// activities have none.
pub proof fn lemma_group_total_stays_none(rows: Seq<Activity>, group_id: u128, n: int)
    requires
        0 <= n <= rows.len(),
        group_total(rows.take(n), group_id) is None,
    ensures
        group_total(rows, group_id) is None,
    decreases rows.len() - n,
{
    if n < rows.len() {
        assert(rows.take(n + 1).drop_last() == rows.take(n));
        if rows[n].group_id == group_id {
            let longer = group_amounts(rows.take(n + 1), group_id);
            assert(longer.drop_last() == group_amounts(rows.take(n), group_id));
        }
        lemma_group_total_stays_none(rows, group_id, n + 1);
    } else {
        assert(rows.take(n) == rows);
    }
}

/// Rows that agree wherever one of them belongs to a group give that group
/// the same amounts.
pub proof fn lemma_group_amounts_frame(a: Seq<Activity>, b: Seq<Activity>, group_id: u128)
    requires
        a.len() == b.len(),
        forall|i: int|
            0 <= i < a.len() && ((#[trigger] a[i]).group_id == group_id || b[i].group_id
                == group_id) ==> a[i].group_id == b[i].group_id && a[i].amount == b[i].amount,
    ensures
        group_amounts(a, group_id) == group_amounts(b, group_id),
    decreases a.len(),
{
    if a.len() > 0 {
        assert(a[a.len() - 1].group_id == group_id || b[a.len() - 1].group_id == group_id
            ==> a.last().group_id == b.last().group_id && a.last().amount == b.last().amount);
        assert forall|i: int|
            0 <= i < a.len() - 1 && ((#[trigger] a.drop_last()[i]).group_id == group_id
                || b.drop_last()[i].group_id == group_id) implies a.drop_last()[i].group_id
            == b.drop_last()[i].group_id && a.drop_last()[i].amount == b.drop_last()[i].amount by {
            assert(a[i].group_id == group_id || b[i].group_id == group_id);
        }
        lemma_group_amounts_frame(a.drop_last(), b.drop_last(), group_id);
    }
}

/// Without one of its rows, a table gives the group of that row the amount of
/// the row less, and every other group what it gave before.
pub proof fn lemma_group_total_units_remove(rows: Seq<Activity>, i: int, group_id: u128)
    requires
        0 <= i < rows.len(),
    ensures
        group_total_units(rows.remove(i), group_id) == group_total_units(rows, group_id)
            - if rows[i].group_id == group_id {
            rows[i].amount.units()
        } else {
            0
        },
    decreases rows.len(),
{
    let shorter = rows.drop_last();
    if rows.last().group_id == group_id {
        lemma_total_units_push(group_amounts(shorter, group_id), rows.last().amount);
    }
    if i == rows.len() - 1 {
        assert(rows.remove(i) == shorter);
    } else {
        assert(rows.remove(i).drop_last() == shorter.remove(i));
        assert(rows.remove(i).last() == rows.last());
        lemma_group_total_units_remove(shorter, i, group_id);
        if rows.last().group_id == group_id {
            lemma_total_units_push(
                group_amounts(shorter.remove(i), group_id),
                rows.last().amount,
            );
        }
    }
}

/// With one more row, a table gives the group of that row the amount of the
/// row more, and every other group what it gave before.
pub proof fn lemma_group_total_units_push(rows: Seq<Activity>, row: Activity, group_id: u128)
    ensures
        group_total_units(rows.push(row), group_id) == group_total_units(rows, group_id)
            + if row.group_id == group_id {
            row.amount.units()
        } else {
            0
        },
{
    assert(rows.push(row).drop_last() == rows);
    if row.group_id == group_id {
        lemma_total_units_push(group_amounts(rows, group_id), row.amount);
    }
}

/// Taking the amount of a deleted activity from a settled total gives what
/// adding up the remaining activities gives.
pub proof fn lemma_subtracting_matches_recomputing(
    rows: Seq<Activity>,
    i: int,
    total: Money,
    rest: Money,
)
    requires
        0 <= i < rows.len(),
        total.units() == group_total_units(rows, rows[i].group_id),
        exact_difference(total, rows[i].amount) == Some(rest),
    ensures
        rest.units() == group_total_units(rows.remove(i), rows[i].group_id),
{
    lemma_group_total_units_remove(rows, i, rows[i].group_id);
}

} // verus!
