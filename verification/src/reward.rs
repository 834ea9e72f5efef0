//! The reward quota engine: which of the remaining clears would still earn
//! the account's limited weekly currency.
//!
//! Two independent quotas gate the reward. The personal quota allows each
//! character three reward-eligible clears among weekly-capped raids per
//! cycle. The account-wide quota allows six characters per account to newly
//! start earning rewards in a cycle: once six characters of the roster have
//! cleared at least one raid, a character with no completion yet earns
//! nothing until the cycle resets — while already-active characters are
//! unaffected, since they are not new participants.
//!
//! [`evaluate_rewards`] reports, for every `(character, raid)` pair of the
//! roster where the raid is not yet completed by that character, whether a
//! clear would still award the reward. Already-completed raids are omitted:
//! history is not re-evaluated.

use vstd::prelude::*;
use crate::catalog::Catalog;
use crate::data::{Character, Raid, WebError};
use crate::eligibility::{
    completed_valid, contains_i32, snapshot_valid, weekly_cap_used, weekly_cap_used_exec,
};

verus! {

/// One roster or party member: a character, the role its class plays
/// (`support`, or damage dealer), and its completion snapshot.
#[derive(Clone, Debug)]
pub struct MemberState {
    pub character: Character,
    pub support: bool,
    pub completed: Vec<i32>,
}

/// One row of the reward listing: would a clear of raid `raid_id` by
/// character `character_id` still award the weekly reward?
#[derive(Clone, Copy, Debug, PartialEq, Eq, Structural)]
pub struct RewardEntry {
    pub character_id: i32,
    pub raid_id: i32,
    pub awards_reward: bool,
}

/// The character's remaining personal budget of reward-eligible
/// weekly-capped clears. May run negative; only its sign matters.
pub open spec fn entries_budget(raids: Seq<Raid>, completed: Seq<i32>) -> int {
    3 - weekly_cap_used(raids, completed)
}

/// How many roster characters have cleared at least one raid this cycle.
pub open spec fn active_characters(roster: Seq<MemberState>) -> int
    decreases roster.len(),
{
    if roster.len() == 0 {
        0
    } else {
        active_characters(roster.drop_last()) + if roster.last().completed@.len() > 0 {
            1int
        } else {
            0int
        }
    }
}

/// Per pair: the clear still awards the reward unless the personal
/// weekly-capped budget is spent (for a weekly-capped raid), or the
/// account-wide quota is hit and this character would be a new participant.
pub open spec fn awards_reward(raids: Seq<Raid>, completed: Seq<i32>, active: int, r: Raid) -> bool {
    !((r.three_weekly && entries_budget(raids, completed) <= 0) || (active >= 6 && completed.len()
        == 0))
}

/// The reward rows one member owes the listing: one per raid of `rows` not
/// yet completed by the member, in order. Budgets are judged against the
/// full catalog `raids`.
pub open spec fn reward_row(
    raids: Seq<Raid>,
    rows: Seq<Raid>,
    m: MemberState,
    active: int,
) -> Seq<RewardEntry>
    decreases rows.len(),
{
    if rows.len() == 0 {
        Seq::empty()
    } else {
        let rest = reward_row(raids, rows.drop_last(), m, active);
        let r = rows.last();
        if m.completed@.contains(r.id) {
            rest
        } else {
            rest.push(
                RewardEntry {
                    character_id: m.character.id,
                    raid_id: r.id,
                    awards_reward: awards_reward(raids, m.completed@, active, r),
                },
            )
        }
    }
}

/// The whole reward listing: the members' rows, in roster order.
pub open spec fn reward_listing(raids: Seq<Raid>, roster: Seq<MemberState>, active: int) -> Seq<
    RewardEntry,
>
    decreases roster.len(),
{
    if roster.len() == 0 {
        Seq::empty()
    } else {
        reward_listing(raids, roster.drop_last(), active) + reward_row(
            raids,
            raids,
            roster.last(),
            active,
        )
    }
}

/// A well-formed roster: every member's snapshot is valid against the
/// catalog and no item level is negative.
pub open spec fn roster_valid(raids: Seq<Raid>, roster: Seq<MemberState>) -> bool {
    forall|k: int|
        0 <= k < roster.len() ==> completed_valid(raids, (#[trigger] roster[k]).completed@)
            && roster[k].character.item_level >= 0
}

/// The reward listing for one account's roster: one row per
/// `(member, raid)` pair where the raid is not yet completed by that
/// member, in roster order, each judged against the personal and the
/// account-wide quota. Malformed input is rejected as `InvalidInput`.
pub fn evaluate_rewards(cat: &Catalog, roster: &Vec<MemberState>) -> (res: Result<
    Vec<RewardEntry>,
    WebError,
>)
    requires
        cat.wf(),
    ensures
        match res {
            Ok(v) => {
                &&& roster_valid(cat.raids_seq(), roster@)
                &&& v@ == reward_listing(
                    cat.raids_seq(),
                    roster@,
                    active_characters(roster@),
                )
            },
            Err(e) => {
                &&& e == WebError::InvalidInput
                &&& !roster_valid(cat.raids_seq(), roster@)
            },
        },
{
    if !roster_valid_exec(cat, roster) {
        return Err(WebError::InvalidInput);
    }
    let active = active_characters_exec(roster);
    let raids = cat.raids();
    let n = raids.len();
    let members = roster.len();
    let mut res: Vec<RewardEntry> = Vec::new();
    let mut mi: usize = 0;
    while mi < members
        invariant
            cat.wf(),
            n == cat.raids_seq().len(),
            raids@ == cat.raids_seq(),
            members == roster@.len(),
            active as int == active_characters(roster@),
            mi <= members,
            res@ == reward_listing(cat.raids_seq(), roster@.take(mi as int), active as int),
        decreases members - mi,
    {
        let m = &roster[mi];
        let used = weekly_cap_used_exec(cat, &m.completed);
        let no_completions = m.completed.len() == 0;
        let mut j: usize = 0;
        while j < n
            invariant
                cat.wf(),
                n == cat.raids_seq().len(),
                raids@ == cat.raids_seq(),
                members == roster@.len(),
                mi < members,
                m == roster@[mi as int],
                used as int == weekly_cap_used(cat.raids_seq(), m.completed@),
                no_completions == (m.completed@.len() == 0),
                j <= n,
                res@ == reward_listing(cat.raids_seq(), roster@.take(mi as int), active as int)
                    + reward_row(
                    cat.raids_seq(),
                    cat.raids_seq().take(j as int),
                    *m,
                    active as int,
                ),
            decreases n - j,
        {
            let r = &raids[j];
            proof {
                assert(cat.raids_seq().take(j as int + 1).drop_last() =~= cat.raids_seq().take(
                    j as int,
                ));
                assert(cat.raids_seq().take(j as int + 1).last() == cat.raids_seq()[j as int]);
            }
            if !contains_i32(&m.completed, r.id) {
                let cap_spent = r.three_weekly && used >= 3;
                let new_participant_locked = active >= 6 && no_completions;
                res.push(
                    RewardEntry {
                        character_id: m.character.id,
                        raid_id: r.id,
                        awards_reward: !(cap_spent || new_participant_locked),
                    },
                );
            }
            j += 1;
        }
        proof {
            assert(cat.raids_seq().take(n as int) =~= cat.raids_seq());
            assert(roster@.take(mi as int + 1).drop_last() =~= roster@.take(mi as int));
            assert(roster@.take(mi as int + 1).last() == roster@[mi as int]);
        }
        mi += 1;
    }
    proof {
        assert(roster@.take(members as int) =~= roster@);
    }
    Ok(res)
}

/// Checks every member's snapshot and item level against the catalog.
pub(crate) fn roster_valid_exec(cat: &Catalog, roster: &Vec<MemberState>) -> (b: bool)
    requires
        cat.wf(),
    ensures
        b == roster_valid(cat.raids_seq(), roster@),
{
    let members = roster.len();
    let mut k: usize = 0;
    while k < members
        invariant
            cat.wf(),
            members == roster@.len(),
            k <= members,
            forall|t: int|
                0 <= t < k ==> completed_valid(cat.raids_seq(), (#[trigger] roster@[t]).completed@)
                    && roster@[t].character.item_level >= 0,
        decreases members - k,
    {
        if !snapshot_valid(cat, &roster[k].completed) || roster[k].character.item_level < 0 {
            return false;
        }
        k += 1;
    }
    true
}

/// Counts the roster characters with at least one completion.
pub fn active_characters_exec(roster: &Vec<MemberState>) -> (active: usize)
    ensures
        active as int == active_characters(roster@),
{
    let members = roster.len();
    let mut active: usize = 0;
    let mut k: usize = 0;
    while k < members
        invariant
            members == roster@.len(),
            k <= members,
            active <= k,
            active as int == active_characters(roster@.take(k as int)),
        decreases members - k,
    {
        proof {
            assert(roster@.take(k as int + 1).drop_last() =~= roster@.take(k as int));
            assert(roster@.take(k as int + 1).last() == roster@[k as int]);
        }
        if roster[k].completed.len() > 0 {
            active += 1;
        }
        k += 1;
    }
    proof {
        assert(roster@.take(members as int) =~= roster@);
    }
    active
}

/// Law: the account-wide quota, seen from a character with no completion
/// yet. Such a character's clears award the reward exactly while fewer
/// than six roster characters are active — the sixth distinct character to
/// earn its first completion still gets the reward, a seventh gets none —
/// whatever the raid.
pub proof fn lemma_account_quota(raids: Seq<Raid>, completed: Seq<i32>, active: int, r: Raid)
    requires
        completed.len() == 0,
    ensures
        awards_reward(raids, completed, active, r) == (active < 6),
{
}

/// Law: a character that is already active this cycle is exempt from the
/// account-wide gate; for it only the personal weekly-capped budget can
/// withhold the reward.
pub proof fn lemma_active_member_exempt(raids: Seq<Raid>, completed: Seq<i32>, active: int, r: Raid)
    requires
        completed.len() > 0,
    ensures
        awards_reward(raids, completed, active, r) == !(r.three_weekly && entries_budget(
            raids,
            completed,
        ) <= 0),
{
}

} // verus!
