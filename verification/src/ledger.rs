//! The completion ledger: which character cleared which raid this cycle.
//!
//! A [`CompletionLedger`] holds at most one record per `(character, raid)`
//! pair. Records are created and deleted through [`CompletionLedger::toggle`],
//! which is idempotent in both directions: marking a clear that is already
//! recorded, or unmarking one that is absent, is a no-op success. The weekly
//! reset a collaborator performs is just the delete direction applied record
//! by record.

use vstd::prelude::*;
use crate::data::UserRaid;

verus! {

/// At most one record per `(character_id, raid_id)` pair.
pub open spec fn ledger_wf(records: Seq<UserRaid>) -> bool {
    forall|i: int, j: int|
        0 <= i < j < records.len() ==> !(records[i].character_id == records[j].character_id
            && records[i].raid_id == records[j].raid_id)
}

/// Is `(character_id, raid_id)` recorded among the first `n` records?
pub open spec fn has_pair_prefix(records: Seq<UserRaid>, n: int, character_id: i32, raid_id: i32) -> bool {
    exists|k: int|
        0 <= k < n && records[k].character_id == character_id && records[k].raid_id == raid_id
}

/// What one toggle does to the recorded pair set.
pub open spec fn toggle_spec(
    pairs: Set<(i32, i32)>,
    character_id: i32,
    raid_id: i32,
    completed: bool,
) -> Set<(i32, i32)> {
    if completed {
        pairs.insert((character_id, raid_id))
    } else {
        pairs.remove((character_id, raid_id))
    }
}

/// The per-cycle record of completed raids, across all characters the
/// store knows of.
pub struct CompletionLedger {
    records: Vec<UserRaid>,
}

impl CompletionLedger {
    /// The stored records, in insertion order.
    pub closed spec fn records_seq(self) -> Seq<UserRaid> {
        self.records@
    }

    pub open spec fn wf(self) -> bool {
        ledger_wf(self.records_seq())
    }

    /// The ledger as a set of `(character_id, raid_id)` pairs: its
    /// mathematical content.
    pub open spec fn pairs(self) -> Set<(i32, i32)> {
        Set::new(
            |p: (i32, i32)|
                has_pair_prefix(self.records_seq(), self.records_seq().len() as int, p.0, p.1),
        )
    }

    /// An empty ledger: no character has cleared anything this cycle.
    pub fn new() -> (res: CompletionLedger)
        ensures
            res.wf(),
            res.pairs() == Set::<(i32, i32)>::empty(),
    {
        let res = CompletionLedger { records: Vec::new() };
        proof {
            assert(res.pairs() =~= Set::<(i32, i32)>::empty());
        }
        res
    }

    /// The stored records, in insertion order.
    pub fn records(&self) -> (r: &Vec<UserRaid>)
        ensures
            r@ == self.records_seq(),
    {
        &self.records
    }

    /// Marks (`completed == true`) or unmarks (`completed == false`) raid
    /// `raid_id` as cleared this cycle by character `character_id` of
    /// account `user_id`. Idempotent: the resulting pair set is the old one
    /// with the pair inserted or removed, whether or not it was present.
    pub fn toggle(&mut self, user_id: i32, character_id: i32, raid_id: i32, completed: bool)
        requires
            old(self).wf(),
        ensures
            final(self).wf(),
            final(self).pairs() == toggle_spec(old(self).pairs(), character_id, raid_id, completed),
    {
        let found = self.find(character_id, raid_id);
        let ghost old_records = self.records@;
        match (found, completed) {
            (None, true) => {
                self.records.push(UserRaid { user_id, character_id, raid_id });
                proof {
                    assert forall|i: int, j: int|
                        0 <= i < j < self.records@.len() implies !(self.records@[i].character_id
                        == self.records@[j].character_id && self.records@[i].raid_id
                        == self.records@[j].raid_id) by {
                        if j < old_records.len() {
                            assert(self.records@[i] == old_records[i]);
                            assert(self.records@[j] == old_records[j]);
                        }
                    }
                    assert(self.pairs() =~= toggle_spec(
                        old(self).pairs(),
                        character_id,
                        raid_id,
                        true,
                    )) by {
                        assert forall|p: (i32, i32)| self.pairs().contains(p) implies toggle_spec(
                            old(self).pairs(),
                            character_id,
                            raid_id,
                            true,
                        ).contains(p) by {
                            let k = choose|k: int|
                                0 <= k < self.records@.len() && self.records@[k].character_id == p.0
                                    && self.records@[k].raid_id == p.1;
                            if k < old_records.len() {
                                assert(has_pair_prefix(
                                    old_records,
                                    old_records.len() as int,
                                    p.0,
                                    p.1,
                                ));
                            }
                        }
                        assert forall|p: (i32, i32)|
                            toggle_spec(
                                old(self).pairs(),
                                character_id,
                                raid_id,
                                true,
                            ).contains(p) implies self.pairs().contains(p) by {
                            if p == (character_id, raid_id) {
                                assert(self.records@[old_records.len() as int].character_id == p.0);
                                assert(self.records@[old_records.len() as int].raid_id == p.1);
                            } else {
                                let k = choose|k: int|
                                    0 <= k < old_records.len() && old_records[k].character_id
                                        == p.0 && old_records[k].raid_id == p.1;
                                assert(self.records@[k].character_id == p.0);
                            }
                        }
                    }
                }
            },
            (Some(i), false) => {
                self.records.remove(i);
                proof {
                    assert forall|k: int| 0 <= k < self.records@.len() implies self.records@[k] == (
                    if k < i {
                        old_records[k]
                    } else {
                        old_records[k + 1]
                    }) by {}
                    assert forall|p: int, q: int|
                        0 <= p < q < self.records@.len() implies !(self.records@[p].character_id
                        == self.records@[q].character_id && self.records@[p].raid_id
                        == self.records@[q].raid_id) by {
                        let p0 = if p < i {
                            p
                        } else {
                            p + 1
                        };
                        let q0 = if q < i {
                            q
                        } else {
                            q + 1
                        };
                        assert(self.records@[p] == old_records[p0]);
                        assert(self.records@[q] == old_records[q0]);
                    }
                    assert(self.pairs() =~= toggle_spec(
                        old(self).pairs(),
                        character_id,
                        raid_id,
                        false,
                    )) by {
                        assert forall|p: (i32, i32)| self.pairs().contains(p) implies toggle_spec(
                            old(self).pairs(),
                            character_id,
                            raid_id,
                            false,
                        ).contains(p) by {
                            let k = choose|k: int|
                                0 <= k < self.records@.len() && self.records@[k].character_id == p.0
                                    && self.records@[k].raid_id == p.1;
                            let k0 = if k < i {
                                k
                            } else {
                                k + 1
                            };
                            assert(old_records[k0].character_id == p.0);
                            assert(old_records[k0].raid_id == p.1);
                            assert(k0 != i);
                            if p == (character_id, raid_id) {
                                assert(old_records[i as int].character_id == p.0);
                                assert(old_records[i as int].raid_id == p.1);
                                if k0 < i {
                                    assert(false);
                                } else {
                                    assert(false);
                                }
                            }
                        }
                        assert forall|p: (i32, i32)|
                            toggle_spec(
                                old(self).pairs(),
                                character_id,
                                raid_id,
                                false,
                            ).contains(p) implies self.pairs().contains(p) by {
                            let k = choose|k: int|
                                0 <= k < old_records.len() && old_records[k].character_id == p.0
                                    && old_records[k].raid_id == p.1;
                            assert(k != i);
                            let k1 = if k < i {
                                k
                            } else {
                                k - 1
                            };
                            assert(self.records@[k1] == old_records[k]);
                        }
                    }
                }
            },
            (Some(i), true) => {
                proof {
                    assert(old(self).pairs().contains((character_id, raid_id)));
                    assert(self.pairs() =~= toggle_spec(
                        old(self).pairs(),
                        character_id,
                        raid_id,
                        true,
                    ));
                }
            },
            (None, false) => {
                proof {
                    assert(!old(self).pairs().contains((character_id, raid_id)));
                    assert(self.pairs() =~= toggle_spec(
                        old(self).pairs(),
                        character_id,
                        raid_id,
                        false,
                    ));
                }
            },
        }
    }

    /// The raid ids character `character_id` has cleared this cycle: the
    /// `completed` input of an eligibility evaluation. Free of duplicates,
    /// and consistent: it reflects the ledger as it stands at the call.
    pub fn snapshot_for(&self, character_id: i32) -> (res: Vec<i32>)
        requires
            self.wf(),
        ensures
            res@.no_duplicates(),
            forall|r: i32| #[trigger]
                res@.contains(r) <==> self.pairs().contains((character_id, r)),
    {
        let n = self.records.len();
        let mut res: Vec<i32> = Vec::new();
        let mut k: usize = 0;
        while k < n
            invariant
                n == self.records_seq().len(),
                k <= n,
                self.wf(),
                res@.no_duplicates(),
                forall|r: i32| #[trigger]
                    res@.contains(r) <==> has_pair_prefix(
                        self.records_seq(),
                        k as int,
                        character_id,
                        r,
                    ),
            decreases n - k,
        {
            let ghost old_res = res@;
            let rec = self.records[k];
            if rec.character_id == character_id {
                proof {
                    // A repeat of rec.raid_id in res would mean a second
                    // record of the pair, which wf rules out.
                    if old_res.contains(rec.raid_id) {
                        let k2 = choose|k2: int|
                            0 <= k2 < k && self.records_seq()[k2].character_id == character_id
                                && self.records_seq()[k2].raid_id == rec.raid_id;
                        assert(false);
                    }
                }
                res.push(rec.raid_id);
                proof {
                    assert forall|r: i32| #[trigger] res@.contains(r) implies has_pair_prefix(
                        self.records_seq(),
                        k as int + 1,
                        character_id,
                        r,
                    ) by {
                        let t = choose|t: int| 0 <= t < res@.len() && res@[t] == r;
                        if t < old_res.len() {
                            assert(old_res.contains(r));
                        } else {
                            assert(r == rec.raid_id);
                            assert(self.records_seq()[k as int].character_id == character_id);
                        }
                    }
                    assert forall|r: i32|
                        has_pair_prefix(
                            self.records_seq(),
                            k as int + 1,
                            character_id,
                            r,
                        ) implies #[trigger] res@.contains(r) by {
                        let t = choose|t: int|
                            0 <= t < k + 1 && self.records_seq()[t].character_id == character_id
                                && self.records_seq()[t].raid_id == r;
                        if t < k {
                            assert(old_res.contains(r));
                            let u = choose|u: int| 0 <= u < old_res.len() && old_res[u] == r;
                            assert(res@[u] == r);
                        } else {
                            assert(res@[old_res.len() as int] == r);
                        }
                    }
                    assert forall|p: int, q: int|
                        0 <= p < q < res@.len() implies res@[p] != res@[q] by {
                        if q < old_res.len() {
                            assert(old_res[p] != old_res[q]);
                        } else {
                            assert(res@[q] == rec.raid_id);
                            assert(!old_res.contains(rec.raid_id));
                            assert(res@[p] == old_res[p]);
                        }
                    }
                }
            } else {
                proof {
                    assert forall|r: i32|
                        has_pair_prefix(
                            self.records_seq(),
                            k as int + 1,
                            character_id,
                            r,
                        ) implies #[trigger] res@.contains(r) by {
                        let t = choose|t: int|
                            0 <= t < k + 1 && self.records_seq()[t].character_id == character_id
                                && self.records_seq()[t].raid_id == r;
                        assert(t < k);
                    }
                }
            }
            k += 1;
        }
        res
    }

    /// The index of the record for `(character_id, raid_id)`, if one
    /// exists.
    fn find(&self, character_id: i32, raid_id: i32) -> (res: Option<usize>)
        ensures
            match res {
                Some(i) => i < self.records_seq().len() && self.records_seq()[i as int].character_id
                    == character_id && self.records_seq()[i as int].raid_id == raid_id,
                None => !has_pair_prefix(
                    self.records_seq(),
                    self.records_seq().len() as int,
                    character_id,
                    raid_id,
                ),
            },
    {
        let n = self.records.len();
        let mut k: usize = 0;
        while k < n
            invariant
                n == self.records_seq().len(),
                k <= n,
                forall|t: int|
                    0 <= t < k ==> !(self.records_seq()[t].character_id == character_id
                        && self.records_seq()[t].raid_id == raid_id),
            decreases n - k,
        {
            if self.records[k].character_id == character_id && self.records[k].raid_id == raid_id {
                return Some(k);
            }
            k += 1;
        }
        None
    }
}

/// Law: toggling a clear on twice leaves the ledger exactly as toggling it
/// on once does.
pub proof fn lemma_toggle_on_idempotent(pairs: Set<(i32, i32)>, character_id: i32, raid_id: i32)
    ensures
        toggle_spec(toggle_spec(pairs, character_id, raid_id, true), character_id, raid_id, true)
            == toggle_spec(pairs, character_id, raid_id, true),
{
    assert(toggle_spec(toggle_spec(pairs, character_id, raid_id, true), character_id, raid_id, true)
        =~= toggle_spec(pairs, character_id, raid_id, true));
}

/// Law: toggling a clear off twice leaves the ledger exactly as toggling
/// it off once does.
pub proof fn lemma_toggle_off_idempotent(pairs: Set<(i32, i32)>, character_id: i32, raid_id: i32)
    ensures
        toggle_spec(toggle_spec(pairs, character_id, raid_id, false), character_id, raid_id, false)
            == toggle_spec(pairs, character_id, raid_id, false),
{
    assert(toggle_spec(
        toggle_spec(pairs, character_id, raid_id, false),
        character_id,
        raid_id,
        false,
    ) =~= toggle_spec(pairs, character_id, raid_id, false));
}

/// Law: toggling a clear on and then off removes exactly that pair; if the
/// pair was absent to begin with, the ledger is back in its initial state.
pub proof fn lemma_toggle_round_trip(pairs: Set<(i32, i32)>, character_id: i32, raid_id: i32)
    ensures
        toggle_spec(toggle_spec(pairs, character_id, raid_id, true), character_id, raid_id, false)
            == pairs.remove((character_id, raid_id)),
        !pairs.contains((character_id, raid_id)) ==> toggle_spec(
            toggle_spec(pairs, character_id, raid_id, true),
            character_id,
            raid_id,
            false,
        ) == pairs,
{
    assert(toggle_spec(
        toggle_spec(pairs, character_id, raid_id, true),
        character_id,
        raid_id,
        false,
    ) =~= pairs.remove((character_id, raid_id)));
    if !pairs.contains((character_id, raid_id)) {
        assert(pairs.remove((character_id, raid_id)) =~= pairs);
    }
}

} // verus!
