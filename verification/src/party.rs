//! The party aggregator: the planning listing for a group of accounts.
//!
//! [`aggregate_party`] fans the eligibility and reward engines out over the
//! party — an ordered list of accounts, each with its ordered character
//! roster — and regroups the result per raid. Each raid (difficulty
//! variants are not collapsed) gets four buckets: damage dealers and
//! supports, each split by whether a clear would still award the weekly
//! currency. A character appears for a raid only if the raid is available
//! to it and not yet completed by it, and then in exactly one bucket; the
//! reward status is judged within the character's own account. Raids come
//! in catalog order, bucket entries in party order.

use vstd::prelude::*;
use vstd::string::StringExecFns;
use crate::catalog::Catalog;
use crate::data::{Raid, WebError};
use crate::eligibility::{
    blocked_exec, contains_i32, raid_available, same_name_locked_exec, weekly_cap_used_exec,
};
use crate::reward::{
    active_characters, active_characters_exec, awards_reward, roster_valid, roster_valid_exec,
    MemberState,
};

verus! {

/// One account of the party: its characters, in roster order.
#[derive(Clone, Debug)]
pub struct PartyAccount {
    pub members: Vec<MemberState>,
}

/// One raid of the planning listing, with its four buckets of character
/// names.
#[derive(Clone, Debug)]
pub struct RaidBuckets {
    pub name: String,
    pub difficulty: String,
    pub dd: Vec<String>,
    pub dd_nogold: Vec<String>,
    pub support: Vec<String>,
    pub support_nogold: Vec<String>,
}

impl RaidBuckets {
    /// The "name difficulty" label the listing is grouped by.
    pub fn label(&self) -> (r: String)
        ensures
            r@ == self.name@ + " "@ + self.difficulty@,
    {
        let head = self.name.clone().concat(" ");
        head.concat(self.difficulty.as_str())
    }
}

/// The views of a sequence of names.
pub open spec fn names_of(v: Seq<String>) -> Seq<Seq<char>> {
    v.map_values(|s: String| s@)
}

/// Would member `m` attend raid `r`? The raid must be available to the
/// member and not yet completed by it.
pub open spec fn attends(
    raids: Seq<Raid>,
    edges: Seq<crate::catalog::PrerequisiteEdge>,
    m: MemberState,
    r: Raid,
) -> bool {
    !m.completed@.contains(r.id) && raid_available(
        raids,
        edges,
        m.completed@,
        m.character.item_level,
        r,
    )
}

/// Does member `m` stand in the bucket for role `want_support` and reward
/// status `want_gold` of raid `r`?
pub open spec fn in_bucket(
    raids: Seq<Raid>,
    edges: Seq<crate::catalog::PrerequisiteEdge>,
    m: MemberState,
    active: int,
    r: Raid,
    want_support: bool,
    want_gold: bool,
) -> bool {
    attends(raids, edges, m, r) && m.support == want_support && awards_reward(
        raids,
        m.completed@,
        active,
        r,
    ) == want_gold
}

/// The names one account contributes to a bucket, in roster order.
pub open spec fn bucket_of_roster(
    raids: Seq<Raid>,
    edges: Seq<crate::catalog::PrerequisiteEdge>,
    members: Seq<MemberState>,
    active: int,
    r: Raid,
    want_support: bool,
    want_gold: bool,
) -> Seq<Seq<char>>
    decreases members.len(),
{
    if members.len() == 0 {
        Seq::empty()
    } else {
        let rest = bucket_of_roster(
            raids,
            edges,
            members.drop_last(),
            active,
            r,
            want_support,
            want_gold,
        );
        if in_bucket(raids, edges, members.last(), active, r, want_support, want_gold) {
            rest.push(members.last().character.name@)
        } else {
            rest
        }
    }
}

/// A whole bucket: the accounts' contributions, in party order. Each
/// account's members are judged against that account's own active-character
/// count.
pub open spec fn bucket_names(
    raids: Seq<Raid>,
    edges: Seq<crate::catalog::PrerequisiteEdge>,
    accounts: Seq<PartyAccount>,
    r: Raid,
    want_support: bool,
    want_gold: bool,
) -> Seq<Seq<char>>
    decreases accounts.len(),
{
    if accounts.len() == 0 {
        Seq::empty()
    } else {
        bucket_names(raids, edges, accounts.drop_last(), r, want_support, want_gold)
            + bucket_of_roster(
            raids,
            edges,
            accounts.last().members@,
            active_characters(accounts.last().members@),
            r,
            want_support,
            want_gold,
        )
    }
}

/// Row `b` is what the planning listing owes raid `r`.
pub open spec fn buckets_match(
    raids: Seq<Raid>,
    edges: Seq<crate::catalog::PrerequisiteEdge>,
    accounts: Seq<PartyAccount>,
    r: Raid,
    b: RaidBuckets,
) -> bool {
    &&& b.name@ == r.name@
    &&& b.difficulty@ == r.difficulty@
    &&& names_of(b.dd@) == bucket_names(raids, edges, accounts, r, false, true)
    &&& names_of(b.dd_nogold@) == bucket_names(raids, edges, accounts, r, false, false)
    &&& names_of(b.support@) == bucket_names(raids, edges, accounts, r, true, true)
    &&& names_of(b.support_nogold@) == bucket_names(raids, edges, accounts, r, true, false)
}

/// Every account of the party is well-formed against the catalog.
pub open spec fn party_valid(raids: Seq<Raid>, accounts: Seq<PartyAccount>) -> bool {
    forall|k: int| 0 <= k < accounts.len() ==> roster_valid(raids, (#[trigger] accounts[k]).members@)
}

/// The planning listing: one row per catalog raid, in catalog
/// order, with four buckets of character names in party order. Malformed
/// input is rejected as `InvalidInput`.
pub fn aggregate_party(cat: &Catalog, accounts: &Vec<PartyAccount>) -> (res: Result<
    Vec<RaidBuckets>,
    WebError,
>)
    requires
        cat.wf(),
    ensures
        match res {
            Ok(v) => {
                &&& party_valid(cat.raids_seq(), accounts@)
                &&& v@.len() == cat.raids_seq().len()
                &&& forall|j: int|
                    0 <= j < v@.len() ==> buckets_match(
                        cat.raids_seq(),
                        cat.edges_seq(),
                        accounts@,
                        cat.raids_seq()[j],
                        #[trigger] v@[j],
                    )
            },
            Err(e) => {
                &&& e == WebError::InvalidInput
                &&& !party_valid(cat.raids_seq(), accounts@)
            },
        },
{
    if !party_valid_exec(cat, accounts) {
        return Err(WebError::InvalidInput);
    }
    let n_accounts = accounts.len();
    let mut actives: Vec<usize> = Vec::new();
    let mut k: usize = 0;
    while k < n_accounts
        invariant
            n_accounts == accounts@.len(),
            k <= n_accounts,
            actives@.len() == k,
            forall|t: int|
                0 <= t < k ==> #[trigger] actives@[t] as int == active_characters(
                    accounts@[t].members@,
                ),
        decreases n_accounts - k,
    {
        let a = active_characters_exec(&accounts[k].members);
        actives.push(a);
        k += 1;
    }
    let raids = cat.raids();
    let n = raids.len();
    let mut listing: Vec<RaidBuckets> = Vec::new();
    let mut j: usize = 0;
    while j < n
        invariant
            cat.wf(),
            n == cat.raids_seq().len(),
            raids@ == cat.raids_seq(),
            n_accounts == accounts@.len(),
            actives@.len() == n_accounts,
            forall|t: int|
                0 <= t < n_accounts ==> #[trigger] actives@[t] as int == active_characters(
                    accounts@[t].members@,
                ),
            j <= n,
            listing@.len() == j,
            forall|t: int|
                0 <= t < j ==> buckets_match(
                    cat.raids_seq(),
                    cat.edges_seq(),
                    accounts@,
                    cat.raids_seq()[t],
                    #[trigger] listing@[t],
                ),
        decreases n - j,
    {
        let r = &raids[j];
        let mut dd: Vec<String> = Vec::new();
        let mut dd_nogold: Vec<String> = Vec::new();
        let mut support: Vec<String> = Vec::new();
        let mut support_nogold: Vec<String> = Vec::new();
        proof {
            assert(names_of(dd@) =~= Seq::<Seq<char>>::empty());
            assert(names_of(dd_nogold@) =~= Seq::<Seq<char>>::empty());
            assert(names_of(support@) =~= Seq::<Seq<char>>::empty());
            assert(names_of(support_nogold@) =~= Seq::<Seq<char>>::empty());
        }
        let mut k: usize = 0;
        while k < n_accounts
            invariant
                cat.wf(),
                n == cat.raids_seq().len(),
                raids@ == cat.raids_seq(),
                j < n,
                r == cat.raids_seq()[j as int],
                n_accounts == accounts@.len(),
                actives@.len() == n_accounts,
                forall|t: int|
                    0 <= t < n_accounts ==> #[trigger] actives@[t] as int == active_characters(
                        accounts@[t].members@,
                    ),
                k <= n_accounts,
                names_of(dd@) == bucket_names(
                    cat.raids_seq(),
                    cat.edges_seq(),
                    accounts@.take(k as int),
                    *r,
                    false,
                    true,
                ),
                names_of(dd_nogold@) == bucket_names(
                    cat.raids_seq(),
                    cat.edges_seq(),
                    accounts@.take(k as int),
                    *r,
                    false,
                    false,
                ),
                names_of(support@) == bucket_names(
                    cat.raids_seq(),
                    cat.edges_seq(),
                    accounts@.take(k as int),
                    *r,
                    true,
                    true,
                ),
                names_of(support_nogold@) == bucket_names(
                    cat.raids_seq(),
                    cat.edges_seq(),
                    accounts@.take(k as int),
                    *r,
                    true,
                    false,
                ),
            decreases n_accounts - k,
        {
            let roster = &accounts[k].members;
            let active = actives[k];
            let n_members = roster.len();
            let mut l: usize = 0;
            while l < n_members
                invariant
                    cat.wf(),
                    n == cat.raids_seq().len(),
                    raids@ == cat.raids_seq(),
                    j < n,
                    r == cat.raids_seq()[j as int],
                    n_accounts == accounts@.len(),
                    k < n_accounts,
                    roster@ == accounts@[k as int].members@,
                    active as int == active_characters(accounts@[k as int].members@),
                    n_members == roster@.len(),
                    l <= n_members,
                    names_of(dd@) == bucket_names(
                        cat.raids_seq(),
                        cat.edges_seq(),
                        accounts@.take(k as int),
                        *r,
                        false,
                        true,
                    ) + bucket_of_roster(
                        cat.raids_seq(),
                        cat.edges_seq(),
                        roster@.take(l as int),
                        active as int,
                        *r,
                        false,
                        true,
                    ),
                    names_of(dd_nogold@) == bucket_names(
                        cat.raids_seq(),
                        cat.edges_seq(),
                        accounts@.take(k as int),
                        *r,
                        false,
                        false,
                    ) + bucket_of_roster(
                        cat.raids_seq(),
                        cat.edges_seq(),
                        roster@.take(l as int),
                        active as int,
                        *r,
                        false,
                        false,
                    ),
                    names_of(support@) == bucket_names(
                        cat.raids_seq(),
                        cat.edges_seq(),
                        accounts@.take(k as int),
                        *r,
                        true,
                        true,
                    ) + bucket_of_roster(
                        cat.raids_seq(),
                        cat.edges_seq(),
                        roster@.take(l as int),
                        active as int,
                        *r,
                        true,
                        true,
                    ),
                    names_of(support_nogold@) == bucket_names(
                        cat.raids_seq(),
                        cat.edges_seq(),
                        accounts@.take(k as int),
                        *r,
                        true,
                        false,
                    ) + bucket_of_roster(
                        cat.raids_seq(),
                        cat.edges_seq(),
                        roster@.take(l as int),
                        active as int,
                        *r,
                        true,
                        false,
                    ),
                decreases n_members - l,
            {
                let m = &roster[l];
                proof {
                    assert(roster@.take(l as int + 1).drop_last() =~= roster@.take(l as int));
                    assert(roster@.take(l as int + 1).last() == roster@[l as int]);
                }
                match member_bucket(cat, m, active, r) {
                    Some((is_support, gold)) => {
                        let ghost name = m.character.name@;
                        if is_support {
                            if gold {
                                proof {
                                    lemma_names_push(support@, m.character.name);
                                }
                                support.push(m.character.name.clone());
                            } else {
                                proof {
                                    lemma_names_push(support_nogold@, m.character.name);
                                }
                                support_nogold.push(m.character.name.clone());
                            }
                        } else {
                            if gold {
                                proof {
                                    lemma_names_push(dd@, m.character.name);
                                }
                                dd.push(m.character.name.clone());
                            } else {
                                proof {
                                    lemma_names_push(dd_nogold@, m.character.name);
                                }
                                dd_nogold.push(m.character.name.clone());
                            }
                        }
                    },
                    None => {
                    },
                }
                l += 1;
            }
            proof {
                assert(roster@.take(n_members as int) =~= roster@);
                assert(accounts@.take(k as int + 1).drop_last() =~= accounts@.take(k as int));
                assert(accounts@.take(k as int + 1).last() == accounts@[k as int]);
            }
            k += 1;
        }
        proof {
            assert(accounts@.take(n_accounts as int) =~= accounts@);
        }
        listing.push(
            RaidBuckets {
                name: r.name.clone(),
                difficulty: r.difficulty.clone(),
                dd,
                dd_nogold,
                support,
                support_nogold,
            },
        );
        j += 1;
    }
    Ok(listing)
}

/// Decides attendance and bucket for one member and one raid: `None` when
/// the member does not attend, otherwise the member's role and reward
/// status.
fn member_bucket(cat: &Catalog, m: &MemberState, active: usize, r: &Raid) -> (res: Option<
    (bool, bool),
>)
    requires
        cat.wf(),
    ensures
        match res {
            Some(p) => attends(cat.raids_seq(), cat.edges_seq(), *m, *r) && p.0 == m.support && p.1
                == awards_reward(cat.raids_seq(), m.completed@, active as int, *r),
            None => !attends(cat.raids_seq(), cat.edges_seq(), *m, *r),
        },
{
    if contains_i32(&m.completed, r.id) {
        return None;
    }
    let used = weekly_cap_used_exec(cat, &m.completed);
    let cap_locked = r.three_weekly && used >= 3;
    let name_locked = same_name_locked_exec(cat, &m.completed, r);
    let blocked_flag = blocked_exec(cat, &m.completed, r.id);
    let gated = m.character.item_level < r.required_item_level;
    if cap_locked || name_locked || blocked_flag || gated {
        return None;
    }
    let gold = !((r.three_weekly && used >= 3) || (active >= 6 && m.completed.len() == 0));
    Some((m.support, gold))
}

/// Checks every account of the party against the catalog.
fn party_valid_exec(cat: &Catalog, accounts: &Vec<PartyAccount>) -> (b: bool)
    requires
        cat.wf(),
    ensures
        b == party_valid(cat.raids_seq(), accounts@),
{
    let n_accounts = accounts.len();
    let mut k: usize = 0;
    while k < n_accounts
        invariant
            cat.wf(),
            n_accounts == accounts@.len(),
            k <= n_accounts,
            forall|t: int|
                0 <= t < k ==> roster_valid(cat.raids_seq(), (#[trigger] accounts@[t]).members@),
        decreases n_accounts - k,
    {
        if !roster_valid_exec(cat, &accounts[k].members) {
            return false;
        }
        k += 1;
    }
    true
}

/// Pushing a name onto a vector pushes its view onto the vector's name
/// views.
proof fn lemma_names_push(s: Seq<String>, x: String)
    ensures
        names_of(s.push(x)) == names_of(s).push(x@),
{
    assert(names_of(s.push(x)) =~= names_of(s).push(x@));
}

} // verus!
