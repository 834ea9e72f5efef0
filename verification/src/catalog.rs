//! The raid catalog: the immutable per-cycle reference data.
//!
//! A [`Catalog`] holds every raid definition of the cycle together with the
//! prerequisite graph. Its constructor rejects malformed reference data (a
//! negative gear gate, two raids sharing an id) and stores the definitions
//! in listing order — ascending required item level, ties broken by id — so
//! that every listing derived from the catalog is deterministic.

use vstd::prelude::*;
use vstd::assert_multisets_equal;
use crate::data::{Raid, WebError};

verus! {

broadcast use vstd::seq_lib::group_to_multiset_ensures;

/// A directed prerequisite: raid `raid` requires raid `requires` to have
/// been completed before it can be attempted. Each edge blocks on its own;
/// a raid with no outgoing edges is never blocked.
#[derive(Clone, Copy, Debug, PartialEq, Eq, Structural)]
pub struct PrerequisiteEdge {
    pub raid: i32,
    pub requires: i32,
}

/// Listing order on raids: ascending required item level, ties broken by
/// ascending id.
pub open spec fn raid_le(a: Raid, b: Raid) -> bool {
    a.required_item_level < b.required_item_level || (a.required_item_level
        == b.required_item_level && a.id <= b.id)
}

/// The raids stand in listing order.
pub open spec fn raids_sorted(raids: Seq<Raid>) -> bool {
    forall|i: int, j: int| 0 <= i < j < raids.len() ==> raid_le(raids[i], raids[j])
}

/// No two raids share an id.
pub open spec fn raid_ids_unique(raids: Seq<Raid>) -> bool {
    forall|i: int, j: int| 0 <= i < j < raids.len() ==> raids[i].id != raids[j].id
}

/// Every gear gate is non-negative.
pub open spec fn raid_levels_nonnegative(raids: Seq<Raid>) -> bool {
    forall|i: int| 0 <= i < raids.len() ==> raids[i].required_item_level >= 0
}

/// What a well-formed catalog guarantees about its raid definitions.
pub open spec fn catalog_wf(raids: Seq<Raid>) -> bool {
    raids_sorted(raids) && raid_ids_unique(raids) && raid_levels_nonnegative(raids)
}

/// Does the catalog define a raid with id `id`?
pub open spec fn has_raid(raids: Seq<Raid>, id: i32) -> bool {
    exists|i: int| 0 <= i < raids.len() && raids[i].id == id
}

/// The raid catalog of one cycle, validated and kept in listing order.
#[derive(Debug)]
pub struct Catalog {
    raids: Vec<Raid>,
    edges: Vec<PrerequisiteEdge>,
}

impl Catalog {
    /// The raid definitions, in listing order.
    pub closed spec fn raids_seq(self) -> Seq<Raid> {
        self.raids@
    }

    /// The prerequisite edges, in the order they were given.
    pub closed spec fn edges_seq(self) -> Seq<PrerequisiteEdge> {
        self.edges@
    }

    pub open spec fn wf(self) -> bool {
        catalog_wf(self.raids_seq())
    }

    /// Builds the catalog for a cycle from the seeded reference data.
    ///
    /// The raids are brought into listing order; the edges are kept as
    /// given. Malformed reference data — a negative required item level or
    /// a duplicate raid id — is rejected as `InvalidInput`.
    pub fn new(raids: Vec<Raid>, edges: Vec<PrerequisiteEdge>) -> (res: Result<
        Catalog,
        WebError,
    >)
        ensures
            match res {
                Ok(c) => {
                    &&& raid_levels_nonnegative(raids@)
                    &&& raid_ids_unique(raids@)
                    &&& c.wf()
                    &&& c.raids_seq().to_multiset() == raids@.to_multiset()
                    &&& c.raids_seq().len() == raids@.len()
                    &&& forall|x: Raid| c.raids_seq().contains(x) <==> raids@.contains(x)
                    &&& c.edges_seq() == edges@
                },
                Err(e) => {
                    &&& e == WebError::InvalidInput
                    &&& !(raid_levels_nonnegative(raids@) && raid_ids_unique(raids@))
                },
            },
    {
        if !levels_nonnegative(&raids) {
            return Err(WebError::InvalidInput);
        }
        if !ids_unique(&raids) {
            return Err(WebError::InvalidInput);
        }
        let ghost orig = raids@;
        let sorted = sort_raids(raids);
        proof {
            lemma_permutation_keeps_nonnegative(orig, sorted@);
            lemma_permutation_keeps_unique_ids(orig, sorted@);
            assert forall|x: Raid| sorted@.contains(x) <==> orig.contains(x) by {
                assert(sorted@.to_multiset().count(x) == orig.to_multiset().count(x));
            }
        }
        Ok(Catalog { raids: sorted, edges })
    }

    /// The raid definitions, in listing order.
    pub fn raids(&self) -> (r: &Vec<Raid>)
        ensures
            r@ == self.raids_seq(),
    {
        &self.raids
    }

    /// The prerequisite edges.
    pub fn edges(&self) -> (r: &Vec<PrerequisiteEdge>)
        ensures
            r@ == self.edges_seq(),
    {
        &self.edges
    }

    /// Looks a raid up by id.
    pub fn raid_by_id(&self, id: i32) -> (r: Option<&Raid>)
        ensures
            match r {
                Some(raid) => raid.id == id && self.raids_seq().contains(*raid),
                None => !has_raid(self.raids_seq(), id),
            },
    {
        let n = self.raids.len();
        let mut i: usize = 0;
        while i < n
            invariant
                n == self.raids_seq().len(),
                i <= n,
                forall|k: int| 0 <= k < i ==> self.raids_seq()[k].id != id,
            decreases n - i,
        {
            if self.raids[i].id == id {
                return Some(&self.raids[i]);
            }
            i += 1;
        }
        None
    }
}

fn levels_nonnegative(raids: &Vec<Raid>) -> (r: bool)
    ensures
        r == raid_levels_nonnegative(raids@),
{
    let n = raids.len();
    let mut i: usize = 0;
    while i < n
        invariant
            n == raids@.len(),
            i <= n,
            forall|k: int| 0 <= k < i ==> raids@[k].required_item_level >= 0,
        decreases n - i,
    {
        if raids[i].required_item_level < 0 {
            return false;
        }
        i += 1;
    }
    true
}

fn ids_unique(raids: &Vec<Raid>) -> (r: bool)
    ensures
        r == raid_ids_unique(raids@),
{
    let n = raids.len();
    let mut i: usize = 0;
    while i < n
        invariant
            n == raids@.len(),
            i <= n,
            forall|p: int, q: int| 0 <= p < i && p < q < n ==> raids@[p].id != raids@[q].id,
        decreases n - i,
    {
        let mut j: usize = i + 1;
        while j < n
            invariant
                n == raids@.len(),
                i < j <= n,
                forall|p: int, q: int| 0 <= p < i && p < q < n ==> raids@[p].id != raids@[q].id,
                forall|q: int| i < q < j ==> raids@[i as int].id != raids@[q].id,
            decreases n - j,
        {
            if raids[i].id == raids[j].id {
                return false;
            }
            j += 1;
        }
        i += 1;
    }
    true
}

fn raid_le_exec(a: &Raid, b: &Raid) -> (r: bool)
    ensures
        r == raid_le(*a, *b),
{
    a.required_item_level < b.required_item_level || (a.required_item_level
        == b.required_item_level && a.id <= b.id)
}

/// Selection sort into listing order. The result is a permutation of the
/// input: same raids, same multiplicities.
fn sort_raids(raids: Vec<Raid>) -> (r: Vec<Raid>)
    ensures
        raids_sorted(r@),
        r@.to_multiset() == raids@.to_multiset(),
        r@.len() == raids@.len(),
{
    let mut rem = raids;
    let ghost orig = rem@;
    let mut out: Vec<Raid> = Vec::new();
    while rem.len() > 0
        invariant
            out@.len() + rem@.len() == orig.len(),
            out@.to_multiset().add(rem@.to_multiset()) == orig.to_multiset(),
            raids_sorted(out@),
            forall|i: int, j: int|
                0 <= i < out@.len() && 0 <= j < rem@.len() ==> raid_le(out@[i], rem@[j]),
        decreases rem@.len(),
    {
        let m = min_index(&rem);
        let ghost old_out = out@;
        let ghost old_rem = rem@;
        let picked = rem.remove(m);
        out.push(picked);
        proof {
            assert(old_rem.contains(picked));
            assert_multisets_equal!(
                out@.to_multiset().add(rem@.to_multiset()),
                old_out.to_multiset().add(old_rem.to_multiset())
            );
            assert forall|i: int, j: int|
                0 <= i < out@.len() && 0 <= j < rem@.len() implies raid_le(out@[i], rem@[j]) by {
                if j < m {
                    assert(rem@[j] == old_rem[j]);
                } else {
                    assert(rem@[j] == old_rem[j + 1]);
                }
            }
        }
    }
    proof {
        assert_multisets_equal!(out@.to_multiset(), orig.to_multiset());
    }
    out
}

/// The index of a least element of a non-empty vector, under listing order.
fn min_index(raids: &Vec<Raid>) -> (m: usize)
    requires
        raids@.len() > 0,
    ensures
        m < raids@.len(),
        forall|t: int| 0 <= t < raids@.len() ==> raid_le(raids@[m as int], raids@[t]),
{
    let n = raids.len();
    let mut m: usize = 0;
    let mut k: usize = 1;
    while k < n
        invariant
            n == raids@.len(),
            m < k <= n || (m == 0 && k <= n),
            m < n,
            forall|t: int| 0 <= t < k ==> raid_le(raids@[m as int], raids@[t]),
        decreases n - k,
    {
        if raid_le_exec(&raids[k], &raids[m]) {
            m = k;
        }
        k += 1;
    }
    m
}

/// A permutation of raids with non-negative gear gates has non-negative
/// gear gates.
proof fn lemma_permutation_keeps_nonnegative(a: Seq<Raid>, b: Seq<Raid>)
    requires
        a.to_multiset() == b.to_multiset(),
        raid_levels_nonnegative(a),
    ensures
        raid_levels_nonnegative(b),
{
    assert forall|i: int| 0 <= i < b.len() implies b[i].required_item_level >= 0 by {
        assert(b.contains(b[i]));
        assert(b.to_multiset().count(b[i]) > 0);
        assert(a.contains(b[i]));
    }
}

/// Two distinct positions holding the same value put its multiset count at
/// two or more.
proof fn lemma_two_positions_count(s: Seq<Raid>, i: int, j: int)
    requires
        0 <= i < j < s.len(),
        s[i] == s[j],
    ensures
        s.to_multiset().count(s[i]) >= 2,
{
    let shorter = s.remove(j);
    assert(shorter.to_multiset() == s.to_multiset().remove(s[j]));
    assert(shorter[i] == s[i]);
    assert(shorter.contains(s[i]));
    assert(shorter.to_multiset().count(s[i]) > 0);
}

/// A multiset count of two or more puts the value at two distinct
/// positions.
proof fn lemma_count_two_positions(s: Seq<Raid>, x: Raid)
    requires
        s.to_multiset().count(x) >= 2,
    ensures
        exists|i: int, j: int|
            0 <= i < s.len() && 0 <= j < s.len() && i != j && s[i] == x && s[j] == x,
{
    assert(s.contains(x));
    let i = choose|i: int| 0 <= i < s.len() && s[i] == x;
    let shorter = s.remove(i);
    assert(shorter.to_multiset() == s.to_multiset().remove(x));
    assert(shorter.to_multiset().count(x) >= 1);
    assert(shorter.contains(x));
    let k = choose|k: int| 0 <= k < shorter.len() && shorter[k] == x;
    let j = if k < i {
        k
    } else {
        k + 1
    };
    assert(s[j] == shorter[k]);
    assert(0 <= i < s.len() && 0 <= j < s.len() && i != j && s[i] == x && s[j] == x);
}

/// A permutation of raids with pairwise distinct ids has pairwise distinct
/// ids.
proof fn lemma_permutation_keeps_unique_ids(a: Seq<Raid>, b: Seq<Raid>)
    requires
        a.to_multiset() == b.to_multiset(),
        raid_ids_unique(a),
    ensures
        raid_ids_unique(b),
{
    assert forall|i: int, j: int| 0 <= i < j < b.len() implies b[i].id != b[j].id by {
        if b[i].id == b[j].id {
            if b[i] == b[j] {
                lemma_two_positions_count(b, i, j);
                lemma_count_two_positions(a, b[i]);
                let (p, q) = choose|p: int, q: int|
                    0 <= p < a.len() && 0 <= q < a.len() && p != q && a[p] == b[i] && a[q] == b[i];
                if p < q {
                    assert(a[p].id != a[q].id);
                } else {
                    assert(a[q].id != a[p].id);
                }
            } else {
                assert(b.contains(b[i]));
                assert(b.to_multiset().count(b[i]) > 0);
                assert(a.contains(b[i]));
                assert(b.contains(b[j]));
                assert(b.to_multiset().count(b[j]) > 0);
                assert(a.contains(b[j]));
                let p = choose|p: int| 0 <= p < a.len() && a[p] == b[i];
                let q = choose|q: int| 0 <= q < a.len() && a[q] == b[j];
                if p < q {
                    assert(a[p].id != a[q].id);
                } else {
                    assert(a[q].id != a[p].id);
                }
            }
        }
    }
}

} // verus!
