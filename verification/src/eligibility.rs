//! The eligibility engine: which raids a character has cleared this cycle,
//! and which it may still newly attempt.
//!
//! For one character — its item level and its snapshot of completed raid
//! ids — and the catalog, [`evaluate_character`] derives per raid a pair of
//! flags: `completed`, and `available`. A raid is available unless one of
//! four independent locks is in force:
//!
//! * the personal weekly cap: three weekly-capped clears lock every
//!   weekly-capped raid;
//! * the same-name lockout: clearing any difficulty of a raid locks every
//!   other difficulty of that name;
//! * an unmet prerequisite edge;
//! * the gear gate: the character's item level is below the raid's
//!   requirement.
//!
//! `available` is computed unconditionally, also for raids already
//! completed: it answers "could this character still newly attempt this
//! raid", and the caller decides what to show. The listing follows the
//! catalog's order — required item level ascending, ties by id — so it is
//! deterministic.

use vstd::prelude::*;
use crate::catalog::{Catalog, PrerequisiteEdge, has_raid, raid_ids_unique};
use crate::data::{Raid, WebError};

verus! {

/// One row of the per-character listing.
#[derive(Clone, Debug)]
pub struct Activity {
    pub id: i32,
    pub name: String,
    pub difficulty: String,
    pub completed: bool,
    pub available: bool,
}

/// Does id `id` name a weekly-capped raid of the catalog?
pub open spec fn id_is_capped(raids: Seq<Raid>, id: i32) -> bool {
    exists|i: int| 0 <= i < raids.len() && raids[i].id == id && raids[i].three_weekly
}

/// How many of the completed raid ids count against the personal weekly
/// cap.
pub open spec fn weekly_cap_used(raids: Seq<Raid>, completed: Seq<i32>) -> int
    decreases completed.len(),
{
    if completed.len() == 0 {
        0
    } else {
        weekly_cap_used(raids, completed.drop_last()) + if id_is_capped(raids, completed.last()) {
            1int
        } else {
            0int
        }
    }
}

/// The personal weekly cap: three weekly-capped clears lock every
/// weekly-capped raid.
pub open spec fn locked_by_cap(raids: Seq<Raid>, completed: Seq<i32>, r: Raid) -> bool {
    r.three_weekly && weekly_cap_used(raids, completed) >= 3
}

/// The same-name lockout: some completed raid other than `r` itself shares
/// `r`'s name.
pub open spec fn locked_by_same_name(raids: Seq<Raid>, completed: Seq<i32>, r: Raid) -> bool {
    exists|k: int, i: int|
        #![auto]
        0 <= k < completed.len() && 0 <= i < raids.len() && completed[k] != r.id && raids[i].id
            == completed[k] && raids[i].name@ == r.name@
}

/// An unmet prerequisite: some edge of raid `raid_id` requires a raid that
/// is not completed. A raid with no outgoing edges is never blocked.
pub open spec fn blocked(edges: Seq<PrerequisiteEdge>, completed: Seq<i32>, raid_id: i32) -> bool {
    exists|i: int|
        0 <= i < edges.len() && #[trigger] edges[i].raid == raid_id && !completed.contains(
            edges[i].requires,
        )
}

/// The gear gate.
pub open spec fn level_gated(item_level: i32, r: Raid) -> bool {
    item_level < r.required_item_level
}

/// Could the character still newly attempt raid `r`? No lock may be in
/// force.
pub open spec fn raid_available(
    raids: Seq<Raid>,
    edges: Seq<PrerequisiteEdge>,
    completed: Seq<i32>,
    item_level: i32,
    r: Raid,
) -> bool {
    !(locked_by_cap(raids, completed, r) || locked_by_same_name(raids, completed, r) || blocked(
        edges,
        completed,
        r.id,
    ) || level_gated(item_level, r))
}

/// A well-formed completion snapshot: free of duplicates, every id names a
/// raid of the catalog.
pub open spec fn completed_valid(raids: Seq<Raid>, completed: Seq<i32>) -> bool {
    completed.no_duplicates() && forall|k: int|
        0 <= k < completed.len() ==> has_raid(raids, #[trigger] completed[k])
}

/// Row `a` is what the listing owes raid `r`.
pub open spec fn activity_matches(
    raids: Seq<Raid>,
    edges: Seq<PrerequisiteEdge>,
    completed: Seq<i32>,
    item_level: i32,
    r: Raid,
    a: Activity,
) -> bool {
    &&& a.id == r.id
    &&& a.name@ == r.name@
    &&& a.difficulty@ == r.difficulty@
    &&& a.completed == completed.contains(r.id)
    &&& a.available == raid_available(raids, edges, completed, item_level, r)
}

/// The per-character listing: one row per catalog raid, in catalog order,
/// with the `completed` and `available` flags derived above.
///
/// Malformed input — a negative item level, a duplicate completion, or a
/// completion naming a raid the catalog does not define — is rejected as
/// `InvalidInput` rather than silently mis-evaluated.
pub fn evaluate_character(cat: &Catalog, completed: &Vec<i32>, item_level: i32) -> (res: Result<
    Vec<Activity>,
    WebError,
>)
    requires
        cat.wf(),
    ensures
        match res {
            Ok(acts) => {
                &&& item_level >= 0
                &&& completed_valid(cat.raids_seq(), completed@)
                &&& acts@.len() == cat.raids_seq().len()
                &&& forall|i: int|
                    0 <= i < acts@.len() ==> activity_matches(
                        cat.raids_seq(),
                        cat.edges_seq(),
                        completed@,
                        item_level,
                        cat.raids_seq()[i],
                        #[trigger] acts@[i],
                    )
            },
            Err(e) => {
                &&& e == WebError::InvalidInput
                &&& !(item_level >= 0 && completed_valid(cat.raids_seq(), completed@))
            },
        },
{
    if item_level < 0 {
        return Err(WebError::InvalidInput);
    }
    if !snapshot_valid(cat, completed) {
        return Err(WebError::InvalidInput);
    }
    let used = weekly_cap_used_exec(cat, completed);
    let raids = cat.raids();
    let n = raids.len();
    let mut acts: Vec<Activity> = Vec::new();
    let mut i: usize = 0;
    while i < n
        invariant
            cat.wf(),
            n == cat.raids_seq().len(),
            raids@ == cat.raids_seq(),
            used as int == weekly_cap_used(cat.raids_seq(), completed@),
            i <= n,
            acts@.len() == i,
            forall|t: int|
                0 <= t < i ==> activity_matches(
                    cat.raids_seq(),
                    cat.edges_seq(),
                    completed@,
                    item_level,
                    cat.raids_seq()[t],
                    #[trigger] acts@[t],
                ),
        decreases n - i,
    {
        let r = &raids[i];
        let completed_flag = contains_i32(completed, r.id);
        let cap_locked = r.three_weekly && used >= 3;
        let name_locked = same_name_locked_exec(cat, completed, r);
        let blocked_flag = blocked_exec(cat, completed, r.id);
        let gated = item_level < r.required_item_level;
        let available = !(cap_locked || name_locked || blocked_flag || gated);
        acts.push(
            Activity {
                id: r.id,
                name: r.name.clone(),
                difficulty: r.difficulty.clone(),
                completed: completed_flag,
                available,
            },
        );
        i += 1;
    }
    Ok(acts)
}

/// Checks a completion snapshot against the catalog: no duplicates, every
/// id defined.
pub fn snapshot_valid(cat: &Catalog, completed: &Vec<i32>) -> (b: bool)
    requires
        cat.wf(),
    ensures
        b == completed_valid(cat.raids_seq(), completed@),
{
    if !no_dups_i32(completed) {
        return false;
    }
    let n = completed.len();
    let mut k: usize = 0;
    while k < n
        invariant
            cat.wf(),
            n == completed@.len(),
            k <= n,
            forall|t: int| 0 <= t < k ==> has_raid(cat.raids_seq(), #[trigger] completed@[t]),
        decreases n - k,
    {
        if cat.raid_by_id(completed[k]).is_none() {
            return false;
        }
        k += 1;
    }
    true
}

/// Does the vector hold `x`?
pub fn contains_i32(v: &Vec<i32>, x: i32) -> (b: bool)
    ensures
        b == v@.contains(x),
{
    let n = v.len();
    let mut k: usize = 0;
    while k < n
        invariant
            n == v@.len(),
            k <= n,
            forall|t: int| 0 <= t < k ==> v@[t] != x,
        decreases n - k,
    {
        if v[k] == x {
            return true;
        }
        k += 1;
    }
    false
}

/// Has the vector no repeated entry?
fn no_dups_i32(v: &Vec<i32>) -> (b: bool)
    ensures
        b == v@.no_duplicates(),
{
    let n = v.len();
    let mut i: usize = 0;
    while i < n
        invariant
            n == v@.len(),
            i <= n,
            forall|p: int, q: int| 0 <= p < i && p < q < n ==> v@[p] != v@[q],
        decreases n - i,
    {
        let mut j: usize = i + 1;
        while j < n
            invariant
                n == v@.len(),
                i < j <= n,
                forall|p: int, q: int| 0 <= p < i && p < q < n ==> v@[p] != v@[q],
                forall|q: int| i < q < j ==> v@[i as int] != v@[q],
            decreases n - j,
        {
            if v[i] == v[j] {
                return false;
            }
            j += 1;
        }
        i += 1;
    }
    assert forall|p: int, q: int|
        0 <= p < v@.len() && 0 <= q < v@.len() && p != q implies v@[p] != v@[q] by {
        if p < q {
            assert(v@[p] != v@[q]);
        } else {
            assert(v@[q] != v@[p]);
        }
    }
    true
}

/// How many completed ids name weekly-capped raids.
pub(crate) fn weekly_cap_used_exec(cat: &Catalog, completed: &Vec<i32>) -> (used: usize)
    requires
        cat.wf(),
    ensures
        used as int == weekly_cap_used(cat.raids_seq(), completed@),
{
    let n = completed.len();
    let mut used: usize = 0;
    let mut k: usize = 0;
    while k < n
        invariant
            cat.wf(),
            n == completed@.len(),
            k <= n,
            used <= k,
            used as int == weekly_cap_used(cat.raids_seq(), completed@.take(k as int)),
        decreases n - k,
    {
        let capped = match cat.raid_by_id(completed[k]) {
            Some(r) => r.three_weekly,
            None => false,
        };
        proof {
            lemma_id_capped_lookup(cat, completed@[k as int], capped);
            assert(completed@.take(k as int + 1).drop_last() =~= completed@.take(k as int));
            assert(completed@.take(k as int + 1).last() == completed@[k as int]);
        }
        if capped {
            used += 1;
        }
        k += 1;
    }
    proof {
        assert(completed@.take(n as int) =~= completed@);
    }
    used
}

/// Ties the result of a capped-raid lookup to the `id_is_capped`
/// predicate, using the catalog's unique ids.
proof fn lemma_id_capped_lookup(cat: &Catalog, id: i32, capped: bool)
    requires
        cat.wf(),
        capped ==> exists|i: int|
            0 <= i < cat.raids_seq().len() && (#[trigger] cat.raids_seq()[i]).id == id
                && cat.raids_seq()[i].three_weekly,
        !capped ==> forall|i: int|
            0 <= i < cat.raids_seq().len() && (#[trigger] cat.raids_seq()[i]).id == id
                ==> !cat.raids_seq()[i].three_weekly,
    ensures
        capped == id_is_capped(cat.raids_seq(), id),
{
}

/// Is some other completed raid of the same name as `r`?
pub(crate) fn same_name_locked_exec(cat: &Catalog, completed: &Vec<i32>, r: &Raid) -> (b: bool)
    requires
        cat.wf(),
    ensures
        b == locked_by_same_name(cat.raids_seq(), completed@, *r),
{
    let n = completed.len();
    let mut k: usize = 0;
    while k < n
        invariant
            cat.wf(),
            n == completed@.len(),
            k <= n,
            forall|t: int, i: int|
                #![auto]
                0 <= t < k && 0 <= i < cat.raids_seq().len() ==> !(completed@[t] != r.id
                    && cat.raids_seq()[i].id == completed@[t] && cat.raids_seq()[i].name@
                    == r.name@),
        decreases n - k,
    {
        if completed[k] != r.id {
            match cat.raid_by_id(completed[k]) {
                Some(other) => {
                    if other.name == r.name {
                        proof {
                            let i = choose|i: int|
                                0 <= i < cat.raids_seq().len() && cat.raids_seq()[i] == *other;
                            assert(0 <= k < completed@.len() && 0 <= i < cat.raids_seq().len()
                                && completed@[k as int] != r.id && cat.raids_seq()[i].id
                                == completed@[k as int] && cat.raids_seq()[i].name@ == r.name@);
                        }
                        return true;
                    }
                    proof {
                        let j = choose|j: int|
                            0 <= j < cat.raids_seq().len() && cat.raids_seq()[j] == *other;
                        assert forall|i: int|
                            0 <= i < cat.raids_seq().len() && (#[trigger] cat.raids_seq()[i]).id
                                == completed@[k as int] implies cat.raids_seq()[i].name@
                            != r.name@ by {
                            if i != j {
                                assert(raid_ids_unique(cat.raids_seq()));
                                if i < j {
                                    assert(cat.raids_seq()[i].id != cat.raids_seq()[j].id);
                                } else {
                                    assert(cat.raids_seq()[j].id != cat.raids_seq()[i].id);
                                }
                            }
                        }
                    }
                },
                None => {
                },
            }
        }
        k += 1;
    }
    false
}

/// Does some prerequisite edge of raid `raid_id` point at a raid not yet
/// completed?
pub(crate) fn blocked_exec(cat: &Catalog, completed: &Vec<i32>, raid_id: i32) -> (b: bool)
    ensures
        b == blocked(cat.edges_seq(), completed@, raid_id),
{
    let edges = cat.edges();
    let n = edges.len();
    let mut k: usize = 0;
    while k < n
        invariant
            n == cat.edges_seq().len(),
            edges@ == cat.edges_seq(),
            k <= n,
            forall|t: int|
                0 <= t < k ==> !((#[trigger] cat.edges_seq()[t]).raid == raid_id
                    && !completed@.contains(cat.edges_seq()[t].requires)),
        decreases n - k,
    {
        if edges[k].raid == raid_id {
            if !contains_i32(completed, edges[k].requires) {
                return true;
            }
        }
        k += 1;
    }
    false
}

/// Law: for a raid that is neither weekly-capped nor the target of any
/// prerequisite edge, availability is exactly "no same-name lockout and
/// item level at or above the gear gate" — it depends on nothing else.
pub proof fn lemma_uncapped_unchained_availability(
    raids: Seq<Raid>,
    edges: Seq<PrerequisiteEdge>,
    completed: Seq<i32>,
    item_level: i32,
    r: Raid,
)
    requires
        !r.three_weekly,
        forall|i: int| 0 <= i < edges.len() ==> (#[trigger] edges[i]).raid != r.id,
    ensures
        raid_available(raids, edges, completed, item_level, r) == (!locked_by_same_name(
            raids,
            completed,
            r,
        ) && item_level >= r.required_item_level),
{
}

/// Law: availability of such a raid is monotone in item level — raising
/// the character's item level, holding completions fixed, never makes an
/// available raid unavailable.
pub proof fn lemma_available_monotone_in_item_level(
    raids: Seq<Raid>,
    edges: Seq<PrerequisiteEdge>,
    completed: Seq<i32>,
    low: i32,
    high: i32,
    r: Raid,
)
    requires
        !r.three_weekly,
        forall|i: int| 0 <= i < edges.len() ==> (#[trigger] edges[i]).raid != r.id,
        low <= high,
        raid_available(raids, edges, completed, low, r),
    ensures
        raid_available(raids, edges, completed, high, r),
{
    lemma_uncapped_unchained_availability(raids, edges, completed, low, r);
    lemma_uncapped_unchained_availability(raids, edges, completed, high, r);
}

/// Law: completing any difficulty of a raid name locks every other
/// difficulty of that name, whatever the prerequisite, cap and gear state.
pub proof fn lemma_same_name_locks(
    raids: Seq<Raid>,
    edges: Seq<PrerequisiteEdge>,
    completed: Seq<i32>,
    item_level: i32,
    r: Raid,
    k: int,
    i: int,
)
    requires
        0 <= k < completed.len(),
        0 <= i < raids.len(),
        completed[k] != r.id,
        raids[i].id == completed[k],
        raids[i].name@ == r.name@,
    ensures
        !raid_available(raids, edges, completed, item_level, r),
{
    assert(locked_by_same_name(raids, completed, r));
}

/// Law: with three weekly-capped clears recorded, every weekly-capped raid
/// is locked by the personal cap.
pub proof fn lemma_weekly_cap_locks(
    raids: Seq<Raid>,
    edges: Seq<PrerequisiteEdge>,
    completed: Seq<i32>,
    item_level: i32,
    r: Raid,
)
    requires
        r.three_weekly,
        weekly_cap_used(raids, completed) == 3,
    ensures
        !raid_available(raids, edges, completed, item_level, r),
{
}

/// Removing the completion at position `k` lowers the weekly-cap count by
/// one exactly when that completion was weekly-capped.
pub proof fn lemma_cap_used_remove(raids: Seq<Raid>, completed: Seq<i32>, k: int)
    requires
        0 <= k < completed.len(),
    ensures
        weekly_cap_used(raids, completed.remove(k)) == weekly_cap_used(raids, completed) - (
        if id_is_capped(raids, completed[k]) {
            1int
        } else {
            0int
        }),
    decreases completed.len(),
{
    if k == completed.len() - 1 {
        assert(completed.remove(k) =~= completed.drop_last());
    } else {
        let shorter = completed.drop_last();
        lemma_cap_used_remove(raids, shorter, k);
        assert(completed.remove(k).drop_last() =~= shorter.remove(k));
        assert(completed.remove(k).last() == completed.last());
    }
}

/// Removing one entry keeps a duplicate-free snapshot duplicate-free and
/// keeps exactly the other entries.
proof fn lemma_remove_keeps_no_duplicates(s: Seq<i32>, k: int)
    requires
        0 <= k < s.len(),
        s.no_duplicates(),
    ensures
        s.remove(k).no_duplicates(),
        forall|x: i32| s.remove(k).contains(x) <==> (s.contains(x) && x != s[k]),
{
    let t = s.remove(k);
    assert forall|p: int, q: int|
        0 <= p < t.len() && 0 <= q < t.len() && p != q implies t[p] != t[q] by {
        let p0 = if p < k {
            p
        } else {
            p + 1
        };
        let q0 = if q < k {
            q
        } else {
            q + 1
        };
        assert(t[p] == s[p0]);
        assert(t[q] == s[q0]);
    }
    assert forall|x: i32| t.contains(x) implies s.contains(x) && x != s[k] by {
        let i = choose|i: int| 0 <= i < t.len() && t[i] == x;
        let i0 = if i < k {
            i
        } else {
            i + 1
        };
        assert(s[i0] == x);
    }
    assert forall|x: i32| s.contains(x) && x != s[k] implies t.contains(x) by {
        let i = choose|i: int| 0 <= i < s.len() && s[i] == x;
        let i1 = if i < k {
            i
        } else {
            i - 1
        };
        assert(t[i1] == x);
    }
}

/// The weekly-cap count reads the snapshot as a set: two duplicate-free
/// snapshots with the same entries count the same.
pub proof fn lemma_cap_used_set_function(raids: Seq<Raid>, a: Seq<i32>, b: Seq<i32>)
    requires
        a.no_duplicates(),
        b.no_duplicates(),
        forall|x: i32| a.contains(x) <==> b.contains(x),
    ensures
        weekly_cap_used(raids, a) == weekly_cap_used(raids, b),
    decreases a.len(),
{
    if a.len() == 0 {
        if b.len() > 0 {
            assert(b.contains(b[0]));
            assert(a.contains(b[0]));
        }
    } else {
        let x = a.last();
        assert(a.contains(x));
        assert(b.contains(x));
        let j = choose|j: int| 0 <= j < b.len() && b[j] == x;
        lemma_remove_keeps_no_duplicates(a, a.len() - 1);
        lemma_remove_keeps_no_duplicates(b, j);
        let a2 = a.drop_last();
        let b2 = b.remove(j);
        assert(a2 =~= a.remove(a.len() - 1));
        assert forall|y: i32| a2.contains(y) <==> b2.contains(y) by {
            assert(a2.contains(y) <==> (a.contains(y) && y != x));
            assert(b2.contains(y) <==> (b.contains(y) && y != x));
        }
        lemma_cap_used_set_function(raids, a2, b2);
        lemma_cap_used_remove(raids, b, j);
    }
}

/// Law: the whole derivation reads the snapshot as a set. Two
/// duplicate-free snapshots with the same entries give every raid the same
/// completion flag and the same availability — the order a ledger hands
/// the snapshot in cannot change the listing.
pub proof fn lemma_snapshot_order_irrelevant(
    raids: Seq<Raid>,
    edges: Seq<PrerequisiteEdge>,
    a: Seq<i32>,
    b: Seq<i32>,
    item_level: i32,
    r: Raid,
)
    requires
        a.no_duplicates(),
        b.no_duplicates(),
        forall|x: i32| a.contains(x) <==> b.contains(x),
    ensures
        a.contains(r.id) == b.contains(r.id),
        raid_available(raids, edges, a, item_level, r) == raid_available(
            raids,
            edges,
            b,
            item_level,
            r,
        ),
{
    lemma_cap_used_set_function(raids, a, b);
    if locked_by_same_name(raids, a, r) {
        let (k, i) = choose|k: int, i: int|
            #![auto]
            0 <= k < a.len() && 0 <= i < raids.len() && a[k] != r.id && raids[i].id == a[k]
                && raids[i].name@ == r.name@;
        assert(a.contains(a[k]));
        assert(b.contains(a[k]));
        let k2 = choose|k2: int| 0 <= k2 < b.len() && b[k2] == a[k];
        assert(locked_by_same_name(raids, b, r));
    }
    if locked_by_same_name(raids, b, r) {
        let (k, i) = choose|k: int, i: int|
            #![auto]
            0 <= k < b.len() && 0 <= i < raids.len() && b[k] != r.id && raids[i].id == b[k]
                && raids[i].name@ == r.name@;
        assert(b.contains(b[k]));
        assert(a.contains(b[k]));
        let k2 = choose|k2: int| 0 <= k2 < a.len() && a[k2] == b[k];
        assert(locked_by_same_name(raids, a, r));
    }
    if blocked(edges, a, r.id) {
        let i = choose|i: int|
            0 <= i < edges.len() && #[trigger] edges[i].raid == r.id && !a.contains(
                edges[i].requires,
            );
        assert(!b.contains(edges[i].requires));
        assert(blocked(edges, b, r.id));
    }
    if blocked(edges, b, r.id) {
        let i = choose|i: int|
            0 <= i < edges.len() && #[trigger] edges[i].raid == r.id && !b.contains(
                edges[i].requires,
            );
        assert(!a.contains(edges[i].requires));
        assert(blocked(edges, a, r.id));
    }
}

/// Law: the weekly-cap lock is reversible. With exactly three
/// weekly-capped clears recorded, toggling one of them off restores
/// availability of a weekly-capped raid, provided no other lock is in
/// force for it.
pub proof fn lemma_cap_released_by_toggle_off(
    raids: Seq<Raid>,
    edges: Seq<PrerequisiteEdge>,
    completed: Seq<i32>,
    item_level: i32,
    r: Raid,
    k: int,
)
    requires
        r.three_weekly,
        weekly_cap_used(raids, completed) == 3,
        0 <= k < completed.len(),
        id_is_capped(raids, completed[k]),
        !locked_by_same_name(raids, completed.remove(k), r),
        !blocked(edges, completed.remove(k), r.id),
        item_level >= r.required_item_level,
    ensures
        raid_available(raids, edges, completed.remove(k), item_level, r),
{
    lemma_cap_used_remove(raids, completed, k);
}

} // verus!
