//! Group membership bookkeeping.
//!
//! Planning groups are owned by their creator and joined by invitation.
//! The storage collaborator hands the engine the group and membership rows
//! it read; these functions answer the access questions the routes ask —
//! who is a member, who is the creator, which groups an account sees — and
//! perform the membership changes an accepted invitation or a removal asks
//! for.

use vstd::prelude::*;
use crate::data::{Group, GroupMember};

verus! {

/// Is account `user_id` a member of group `group_id`?
pub open spec fn member_of(memberships: Seq<GroupMember>, group_id: i32, user_id: i32) -> bool {
    exists|i: int|
        0 <= i < memberships.len() && (#[trigger] memberships[i]).group_id == group_id
            && memberships[i].user_id == user_id
}

/// Did account `user_id` create group `group_id`?
pub open spec fn creator_of(groups: Seq<Group>, group_id: i32, user_id: i32) -> bool {
    exists|i: int|
        0 <= i < groups.len() && (#[trigger] groups[i]).id == group_id && groups[i].creator_id
            == user_id
}

/// The groups among `groups` that account `user_id` belongs to, in the
/// order given.
pub open spec fn groups_of_spec(
    groups: Seq<Group>,
    memberships: Seq<GroupMember>,
    user_id: i32,
) -> Seq<Group>
    decreases groups.len(),
{
    if groups.len() == 0 {
        Seq::empty()
    } else {
        let rest = groups_of_spec(groups.drop_last(), memberships, user_id);
        if member_of(memberships, groups.last().id, user_id) {
            rest.push(groups.last())
        } else {
            rest
        }
    }
}

/// The member accounts of group `group_id`, in the order the rows were
/// given.
pub open spec fn members_of_spec(memberships: Seq<GroupMember>, group_id: i32) -> Seq<i32>
    decreases memberships.len(),
{
    if memberships.len() == 0 {
        Seq::empty()
    } else {
        let rest = members_of_spec(memberships.drop_last(), group_id);
        if memberships.last().group_id == group_id {
            rest.push(memberships.last().user_id)
        } else {
            rest
        }
    }
}

/// The membership rows with the row for `(group_id, user_id)` taken out.
pub open spec fn without_member(
    memberships: Seq<GroupMember>,
    group_id: i32,
    user_id: i32,
) -> Seq<GroupMember>
    decreases memberships.len(),
{
    if memberships.len() == 0 {
        Seq::empty()
    } else {
        let rest = without_member(memberships.drop_last(), group_id, user_id);
        let gm = memberships.last();
        if gm.group_id == group_id && gm.user_id == user_id {
            rest
        } else {
            rest.push(gm)
        }
    }
}

/// Is account `user_id` a member of group `group_id`? Gate for viewing a
/// group's planning listing.
pub fn is_member(memberships: &Vec<GroupMember>, group_id: i32, user_id: i32) -> (b: bool)
    ensures
        b == member_of(memberships@, group_id, user_id),
{
    let n = memberships.len();
    let mut i: usize = 0;
    while i < n
        invariant
            n == memberships@.len(),
            i <= n,
            forall|t: int|
                0 <= t < i ==> !((#[trigger] memberships@[t]).group_id == group_id
                    && memberships@[t].user_id == user_id),
        decreases n - i,
    {
        if memberships[i].group_id == group_id && memberships[i].user_id == user_id {
            return true;
        }
        i += 1;
    }
    false
}

/// Did account `user_id` create group `group_id`? Gate for inviting,
/// editing and removing members.
pub fn is_creator(groups: &Vec<Group>, group_id: i32, user_id: i32) -> (b: bool)
    ensures
        b == creator_of(groups@, group_id, user_id),
{
    let n = groups.len();
    let mut i: usize = 0;
    while i < n
        invariant
            n == groups@.len(),
            i <= n,
            forall|t: int|
                0 <= t < i ==> !((#[trigger] groups@[t]).id == group_id && groups@[t].creator_id
                    == user_id),
        decreases n - i,
    {
        if groups[i].id == group_id && groups[i].creator_id == user_id {
            return true;
        }
        i += 1;
    }
    false
}

/// The groups account `user_id` belongs to, in the order given.
pub fn groups_of(groups: &Vec<Group>, memberships: &Vec<GroupMember>, user_id: i32) -> (res: Vec<
    Group,
>)
    ensures
        res@ == groups_of_spec(groups@, memberships@, user_id),
{
    let n = groups.len();
    let mut res: Vec<Group> = Vec::new();
    let mut i: usize = 0;
    while i < n
        invariant
            n == groups@.len(),
            i <= n,
            res@ == groups_of_spec(groups@.take(i as int), memberships@, user_id),
        decreases n - i,
    {
        proof {
            assert(groups@.take(i as int + 1).drop_last() =~= groups@.take(i as int));
            assert(groups@.take(i as int + 1).last() == groups@[i as int]);
        }
        let g = &groups[i];
        if is_member(memberships, g.id, user_id) {
            let row = Group { id: g.id, name: g.name.clone(), creator_id: g.creator_id };
            proof {
                assert(row == groups@[i as int]);
            }
            res.push(row);
        }
        i += 1;
    }
    proof {
        assert(groups@.take(n as int) =~= groups@);
    }
    res
}

/// The member accounts of group `group_id`, in the order the rows were
/// given.
pub fn members_of(memberships: &Vec<GroupMember>, group_id: i32) -> (res: Vec<i32>)
    ensures
        res@ == members_of_spec(memberships@, group_id),
{
    let n = memberships.len();
    let mut res: Vec<i32> = Vec::new();
    let mut i: usize = 0;
    while i < n
        invariant
            n == memberships@.len(),
            i <= n,
            res@ == members_of_spec(memberships@.take(i as int), group_id),
        decreases n - i,
    {
        proof {
            assert(memberships@.take(i as int + 1).drop_last() =~= memberships@.take(i as int));
            assert(memberships@.take(i as int + 1).last() == memberships@[i as int]);
        }
        if memberships[i].group_id == group_id {
            res.push(memberships[i].user_id);
        }
        i += 1;
    }
    proof {
        assert(memberships@.take(n as int) =~= memberships@);
    }
    res
}

/// Joins account `user_id` to group `group_id`, as accepting an invitation
/// does. Idempotent: an existing membership is left alone.
pub fn add_member(memberships: &mut Vec<GroupMember>, group_id: i32, user_id: i32)
    ensures
        member_of(old(memberships)@, group_id, user_id) ==> final(memberships)@ == old(
            memberships,
        )@,
        !member_of(old(memberships)@, group_id, user_id) ==> final(memberships)@ == old(
            memberships,
        )@.push(GroupMember { group_id, user_id }),
{
    if !is_member(memberships, group_id, user_id) {
        memberships.push(GroupMember { group_id, user_id });
    }
}

/// Removes account `user_id` from group `group_id`: every row for the pair
/// goes; the others keep their order.
pub fn remove_member(memberships: &mut Vec<GroupMember>, group_id: i32, user_id: i32)
    ensures
        final(memberships)@ == without_member(old(memberships)@, group_id, user_id),
        !member_of(final(memberships)@, group_id, user_id),
{
    let n = memberships.len();
    let mut res: Vec<GroupMember> = Vec::new();
    let mut i: usize = 0;
    while i < n
        invariant
            n == memberships@.len(),
            memberships@ == old(memberships)@,
            i <= n,
            res@ == without_member(memberships@.take(i as int), group_id, user_id),
            forall|t: int|
                0 <= t < res@.len() ==> !((#[trigger] res@[t]).group_id == group_id
                    && res@[t].user_id == user_id),
        decreases n - i,
    {
        proof {
            assert(memberships@.take(i as int + 1).drop_last() =~= memberships@.take(i as int));
            assert(memberships@.take(i as int + 1).last() == memberships@[i as int]);
        }
        let gm = memberships[i];
        if !(gm.group_id == group_id && gm.user_id == user_id) {
            res.push(gm);
        }
        i += 1;
    }
    proof {
        assert(memberships@.take(n as int) =~= memberships@);
    }
    *memberships = res;
}

} // verus!
