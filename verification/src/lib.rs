//! Raid progression tracking for a multiplayer game.
//!
//! Accounts own characters, characters clear raids, and parties plan which
//! characters should attend which raid during the current weekly cycle.
//! This crate holds the rule engine behind such a tracker:
//!
//! * [`data`] — the plain records the engine works on (characters, raids,
//!   completion records, groups);
//! * [`catalog`] — the immutable per-cycle raid catalog with its
//!   prerequisite graph, validated and kept in listing order;
//! * [`ledger`] — the per-character record of completed raids, with an
//!   idempotent toggle;
//! * [`eligibility`] — which raids a character has cleared and which it may
//!   still attempt (weekly caps, same-name lockouts, prerequisites, gear
//!   gates);
//! * [`reward`] — which of the remaining clears would still earn the
//!   account's limited weekly currency;
//! * [`party`] — the per-raid, role- and reward-bucketed listing a party
//!   planner shows for a group of accounts;
//! * [`groups`] — group membership bookkeeping;
//! * [`roster`] — ownership checks, roster ordering, and bulk-edit
//!   validation.
//!
//! Storage, transport and rendering are collaborators: they hand the
//! engine plain values and show what it returns. The engine is pure — it
//! holds no state of its own across calls and performs no I/O.

pub mod catalog;
pub mod data;
pub mod eligibility;
pub mod groups;
pub mod ledger;
pub mod party;
pub mod reward;
pub mod roster;
