//! Who belongs to a group, and who takes over as its admin.
//!
//! The members of a group are ordered by the moment they joined. When the
//! admin leaves, the member who joined first among the others becomes the
//! admin; of two who joined at the same moment, the one whose membership
//! stands first.

use crate::entities::group_members::Model;
use crate::entities::groups::Group;
use crate::ledger::{has_group, has_member, in_group, Tables};
use vstd::prelude::*;

verus! {

/// Whether a membership is one of the group and of another user than the
/// admin.
pub open spec fn is_other(m: Model, group_id: u128, admin_id: u128) -> bool {
    m.group_id == group_id && m.member_id != admin_id
}

/// The membership of the one who is to follow the admin: the first of those
/// of other users that joined earliest. `None` if the group has no other
/// member.
pub open spec fn successor(rows: Seq<Model>, group_id: u128, admin_id: u128) -> Option<Model>
    decreases rows.len(),
{
    if rows.len() == 0 {
        None
    } else {
        let last = rows.last();
        match successor(rows.drop_last(), group_id, admin_id) {
            Some(best) => if is_other(last, group_id, admin_id) && last.joined_at
                < best.joined_at {
                Some(last)
            } else {
                Some(best)
            },
            None => if is_other(last, group_id, admin_id) {
                Some(last)
            } else {
                None
            },
        }
    }
}

/// The memberships without those of a user in a group.
pub open spec fn without_member(rows: Seq<Model>, group_id: u128, user_id: u128) -> Seq<Model>
    decreases rows.len(),
{
    if rows.len() == 0 {
        Seq::empty()
    } else if rows.last().group_id == group_id && rows.last().member_id == user_id {
        without_member(rows.drop_last(), group_id, user_id)
    } else {
        without_member(rows.drop_last(), group_id, user_id).push(rows.last())
    }
}

/// The groups, with a new admin in each row of the given group, marked as
/// changed at the given moment.
pub open spec fn with_admin(rows: Seq<Group>, group_id: u128, admin_id: u128, now: i64) -> Seq<
    Group,
> {
    Seq::new(
        rows.len(),
        |i: int|
            if rows[i].id == group_id {
                Group { creator_id: admin_id, updated_at: now, ..rows[i] }
            } else {
                rows[i]
            },
    )
}

/// Whether a candidate can be taken into a group: the candidate passes the
/// check for existence, and does not belong to the group yet.
pub open spec fn admissible(t: Tables, group_id: u128, candidate: u128) -> bool {
    has_group(t.groups, candidate) && !in_group(t, group_id, candidate)
}

/// Those of the first `n` candidates that are taken into the group, in their
/// order. A candidate who is named twice is taken once.
pub open spec fn admitted(t: Tables, group_id: u128, candidates: Seq<u128>, n: nat) -> Seq<u128>
    decreases n,
{
    if n == 0 {
        Seq::empty()
    } else {
        let earlier = admitted(t, group_id, candidates, (n - 1) as nat);
        let candidate = candidates[n - 1];
        if admissible(t, group_id, candidate) && !earlier.contains(candidate) {
            earlier.push(candidate)
        } else {
            earlier
        }
    }
}

/// The memberships that the first `n` candidates come to: each candidate who
/// is taken into the group joins at the given moment, under the identifier
/// that stands at the candidate's place among the identifiers.
pub open spec fn enrolled(
    t: Tables,
    group_id: u128,
    candidates: Seq<u128>,
    ids: Seq<u128>,
    now: i64,
    n: nat,
) -> Seq<Model>
    decreases n,
{
    if n == 0 {
        Seq::empty()
    } else {
        let earlier = enrolled(t, group_id, candidates, ids, now, (n - 1) as nat);
        let candidate = candidates[n - 1];
        if admissible(t, group_id, candidate) && !admitted(
            t,
            group_id,
            candidates,
            (n - 1) as nat,
        ).contains(candidate) {
            earlier.push(
                Model { id: ids[n - 1], group_id, member_id: candidate, joined_at: now },
            )
        } else {
            earlier
        }
    }
}

/// Whether the memberships are those of the given users in the group, in
/// their order, all joined at the given moment.
pub open spec fn joined(rows: Seq<Model>, group_id: u128, users: Seq<u128>, now: i64) -> bool {
    &&& rows.len() == users.len()
    &&& forall|k: int|
        0 <= k < rows.len() ==> (#[trigger] rows[k]).group_id == group_id && rows[k].member_id
            == users[k] && rows[k].joined_at == now
}

/// The one who follows the admin is a member of the group other than the
/// admin, and none of the others joined before; if there are no others, there
/// is no one to follow.
pub proof fn lemma_successor_is_earliest(rows: Seq<Model>, group_id: u128, admin_id: u128)
    ensures
        match successor(rows, group_id, admin_id) {
            Some(s) => rows.contains(s) && is_other(s, group_id, admin_id) && forall|j: int|
                0 <= j < rows.len() && is_other(#[trigger] rows[j], group_id, admin_id)
                    ==> s.joined_at <= rows[j].joined_at,
            None => forall|j: int|
                0 <= j < rows.len() ==> !is_other(#[trigger] rows[j], group_id, admin_id),
        },
    decreases rows.len(),
{
    if rows.len() > 0 {
        let shorter = rows.drop_last();
        lemma_successor_is_earliest(shorter, group_id, admin_id);
        assert forall|j: int| 0 <= j < rows.len() - 1 implies rows[j] == shorter[j] by {}
        match successor(rows, group_id, admin_id) {
            Some(s) => {
                if s == rows.last() {
                    assert(rows[rows.len() - 1] == s);
                } else {
                    let i = choose|i: int| 0 <= i < shorter.len() && shorter[i] == s;
                    assert(rows[i] == s);
                }
            },
            None => {},
        }
    }
}

/// After a user is taken out of a group, the user has no membership in it;
/// every other membership is kept, and none is new.
pub proof fn lemma_without_member(rows: Seq<Model>, group_id: u128, user_id: u128)
    ensures
        !has_member(without_member(rows, group_id, user_id), group_id, user_id),
        forall|m: Model|
            #[trigger] without_member(rows, group_id, user_id).contains(m) <==> rows.contains(m)
                && !(m.group_id == group_id && m.member_id == user_id),
        without_member(rows, group_id, user_id).len() <= rows.len(),
        without_member(rows, group_id, user_id).len() == rows.len() <==> !has_member(
            rows,
            group_id,
            user_id,
        ),
    decreases rows.len(),
{
    let kept = without_member(rows, group_id, user_id);
    if rows.len() > 0 {
        let shorter = rows.drop_last();
        let last = rows.last();
        let kept_shorter = without_member(shorter, group_id, user_id);
        lemma_without_member(shorter, group_id, user_id);
        assert forall|j: int| 0 <= j < rows.len() - 1 implies rows[j] == shorter[j] by {}
        let gone = last.group_id == group_id && last.member_id == user_id;
        assert forall|m: Model| #[trigger] kept.contains(m) <==> rows.contains(m) && !(m.group_id
            == group_id && m.member_id == user_id) by {
            if kept.contains(m) {
                let i = choose|i: int| 0 <= i < kept.len() && kept[i] == m;
                if !gone && i == kept.len() - 1 {
                    assert(rows[rows.len() - 1] == m);
                } else {
                    assert(kept_shorter[i] == m);
                    assert(kept_shorter.contains(m));
                    let j = choose|j: int| 0 <= j < shorter.len() && shorter[j] == m;
                    assert(rows[j] == m);
                }
            }
            if rows.contains(m) && !(m.group_id == group_id && m.member_id == user_id) {
                let j = choose|j: int| 0 <= j < rows.len() && rows[j] == m;
                if j == rows.len() - 1 {
                    assert(kept[kept.len() - 1] == m);
                } else {
                    assert(shorter[j] == m);
                    assert(kept_shorter.contains(m));
                    let i = choose|i: int| 0 <= i < kept_shorter.len() && kept_shorter[i] == m;
                    assert(kept[i] == m);
                }
            }
        }
        if has_member(kept, group_id, user_id) {
            let i = choose|i: int|
                0 <= i < kept.len() && (#[trigger] kept[i]).group_id == group_id
                    && kept[i].member_id == user_id;
            assert(kept.contains(kept[i]));
        }
        if has_member(rows, group_id, user_id) {
            let j = choose|j: int|
                0 <= j < rows.len() && (#[trigger] rows[j]).group_id == group_id
                    && rows[j].member_id == user_id;
            if j < rows.len() - 1 {
                assert(shorter[j].group_id == group_id);
            }
        } else {
            if has_member(shorter, group_id, user_id) {
                let j = choose|j: int|
                    0 <= j < shorter.len() && (#[trigger] shorter[j]).group_id == group_id
                        && shorter[j].member_id == user_id;
                assert(rows[j].group_id == group_id);
            }
            assert(rows[rows.len() - 1].group_id == last.group_id);
        }
    }
}

/// The memberships that the candidates come to are those of the users who
/// are taken in, in their order, and each carries one of the identifiers
/// given.
pub proof fn lemma_enrolled_are_admitted(
    t: Tables,
    group_id: u128,
    candidates: Seq<u128>,
    ids: Seq<u128>,
    now: i64,
    n: nat,
)
    requires
        n <= candidates.len(),
        n <= ids.len(),
    ensures
        joined(
            enrolled(t, group_id, candidates, ids, now, n),
            group_id,
            admitted(t, group_id, candidates, n),
            now,
        ),
        forall|k: int|
            0 <= k < enrolled(t, group_id, candidates, ids, now, n).len() ==> exists|i: int|
                0 <= i < n && candidates[i] == (#[trigger] enrolled(
                    t,
                    group_id,
                    candidates,
                    ids,
                    now,
                    n,
                )[k]).member_id && ids[i] == enrolled(t, group_id, candidates, ids, now, n)[k].id,
    decreases n,
{
    if n > 0 {
        let m = (n - 1) as nat;
        lemma_enrolled_are_admitted(t, group_id, candidates, ids, now, m);
        let earlier = enrolled(t, group_id, candidates, ids, now, m);
        let all = enrolled(t, group_id, candidates, ids, now, n);
        assert forall|k: int| 0 <= k < all.len() implies exists|i: int|
            0 <= i < n && candidates[i] == (#[trigger] all[k]).member_id && ids[i] == all[k].id by {
            if k < earlier.len() {
                assert(all[k] == earlier[k]);
                let i = choose|i: int|
                    0 <= i < m && candidates[i] == earlier[k].member_id && ids[i] == earlier[k].id;
                assert(0 <= i < n && candidates[i] == all[k].member_id && ids[i] == all[k].id);
            } else {
                assert(candidates[n - 1] == all[k].member_id && ids[n - 1] == all[k].id);
            }
        }
    }
}

/// No user has two memberships in one group.
pub open spec fn pairs_unique(rows: Seq<Model>) -> bool {
    forall|i: int, j: int|
        0 <= i < j < rows.len() ==> !((#[trigger] rows[i]).group_id == (#[trigger] rows[j]).group_id
            && rows[i].member_id == rows[j].member_id)
}

/// Those who are taken into a group did not belong to it, and none of them is
/// taken twice.
pub proof fn lemma_admitted_are_new(t: Tables, group_id: u128, candidates: Seq<u128>, n: nat)
    ensures
        forall|k: int|
            0 <= k < admitted(t, group_id, candidates, n).len() ==> !has_member(
                t.group_members,
                group_id,
                #[trigger] admitted(t, group_id, candidates, n)[k],
            ),
        forall|j: int, k: int|
            0 <= j < k < admitted(t, group_id, candidates, n).len() ==> admitted(
                t,
                group_id,
                candidates,
                n,
            )[j] != admitted(t, group_id, candidates, n)[k],
    decreases n,
{
    if n > 0 {
        let earlier = admitted(t, group_id, candidates, (n - 1) as nat);
        let all = admitted(t, group_id, candidates, n);
        lemma_admitted_are_new(t, group_id, candidates, (n - 1) as nat);
        assert forall|k: int| 0 <= k < all.len() implies !has_member(
            t.group_members,
            group_id,
            #[trigger] all[k],
        ) by {
            if k < earlier.len() {
                assert(all[k] == earlier[k]);
            }
        }
        assert forall|j: int, k: int| 0 <= j < k < all.len() implies all[j] != all[k] by {
            if k < earlier.len() {
                assert(earlier[j] != earlier[k]);
            } else {
                assert(earlier.contains(earlier[j]));
            }
        }
    }
}

/// Where no user has two memberships in one group, none has after users are
/// taken into a group.
pub proof fn lemma_add_keeps_pairs_unique(
    t: Tables,
    group_id: u128,
    candidates: Seq<u128>,
    added: Seq<Model>,
    now: i64,
)
    requires
        pairs_unique(t.group_members),
        joined(added, group_id, admitted(t, group_id, candidates, candidates.len()), now),
    ensures
        pairs_unique(t.group_members + added),
{
    let users = admitted(t, group_id, candidates, candidates.len());
    lemma_admitted_are_new(t, group_id, candidates, candidates.len());
    let old_rows = t.group_members;
    let rows = old_rows + added;
    assert forall|i: int, j: int| 0 <= i < j < rows.len() implies !((#[trigger] rows[i]).group_id
        == (#[trigger] rows[j]).group_id && rows[i].member_id == rows[j].member_id) by {
        if j < old_rows.len() {
            assert(!(old_rows[i].group_id == old_rows[j].group_id && old_rows[i].member_id
                == old_rows[j].member_id));
        } else {
            let b = j - old_rows.len();
            assert(added[b].member_id == users[b]);
            assert(added[b].group_id == group_id);
            if i < old_rows.len() {
                if old_rows[i].group_id == group_id && old_rows[i].member_id == users[b] {
                    assert(has_member(old_rows, group_id, users[b]));
                }
            } else {
                let a = i - old_rows.len();
                assert(added[a].member_id == users[a]);
                assert(users[a] != users[b]);
            }
        }
    }
}

} // verus!
