//! The plain records the rule engine works on.
//!
//! These mirror the rows a storage collaborator hands the engine: accounts
//! (`User`), their characters, character classes, raid definitions, completion
//! records, and planning groups. The engine never mutates a `Raid` or a
//! `Class`; a `UserRaid` row is created and deleted through the completion
//! ledger.

use vstd::prelude::*;

verus! {

/// An account: the scope for the account-wide weekly reward quota.
#[derive(Clone, Debug)]
pub struct User {
    pub username: String,
    pub password: String,
}

/// A playable character, owned by the account `user_id`.
///
/// `item_level` is mutated by the player outside the engine; the engine only
/// reads it, and treats a negative value as malformed input.
#[derive(Clone, Debug)]
pub struct Character {
    pub id: i32,
    pub user_id: i32,
    pub name: String,
    pub class_id: i32,
    pub item_level: i32,
}

/// A character class. `support` decides the planning bucket a character
/// falls into: support classes on one side, damage dealers on the other.
#[derive(Clone, Debug)]
pub struct Class {
    pub id: i32,
    pub name: String,
    pub support: bool,
}

/// One raid definition of the weekly catalog.
///
/// Two definitions sharing a `name` are difficulty variants of the same
/// raid: clearing one locks the others for the cycle. `three_weekly` marks
/// the raid as counting against the personal three-per-cycle quota.
#[derive(Clone, Debug)]
pub struct Raid {
    pub id: i32,
    pub name: String,
    pub difficulty: String,
    pub required_item_level: i32,
    pub three_weekly: bool,
}

/// A completion record: character `character_id` of account `user_id` has
/// cleared raid `raid_id` this cycle. At most one record exists per
/// `(character_id, raid_id)` pair.
#[derive(Clone, Copy, Debug, PartialEq, Eq, Structural)]
pub struct UserRaid {
    pub user_id: i32,
    pub character_id: i32,
    pub raid_id: i32,
}

/// A planning group of accounts.
#[derive(Clone, Debug)]
pub struct Group {
    pub id: i32,
    pub name: String,
    pub creator_id: i32,
}

/// Membership of account `user_id` in group `group_id`.
#[derive(Clone, Copy, Debug, PartialEq, Eq, Structural)]
pub struct GroupMember {
    pub group_id: i32,
    pub user_id: i32,
}

/// The identity of a logged-in account, as established by the transport
/// layer before it calls into the engine.
#[derive(Clone, Copy, Debug, PartialEq, Eq, Structural)]
pub struct UserId(pub i32);

impl UserId {
    /// The raw account id.
    pub fn value(&self) -> (r: i32)
        ensures
            r == self.0,
    {
        self.0
    }
}

/// What can go wrong around an engine evaluation.
///
/// The engine itself has no recoverable errors: well-formed input always
/// produces a result. `InvalidInput` reports malformed input (a completion
/// record naming an unknown raid, a negative item level, a duplicate raid
/// id) instead of silently mis-evaluating; `StorageUnavailable` is the
/// collaborators' way to abort an evaluation whose inputs could not be
/// read; `NotLoggedIn` is raised by the transport layer when no account is
/// established.
#[derive(Clone, Copy, Debug, PartialEq, Eq, Structural)]
pub enum WebError {
    NotLoggedIn,
    InvalidInput,
    StorageUnavailable,
}

impl WebError {
    /// A short human-readable description of the error.
    pub fn message(&self) -> (r: &'static str)
        ensures
            self is NotLoggedIn ==> r@ == "User is not logged in"@,
            self is InvalidInput ==> r@ == "Invalid input"@,
            self is StorageUnavailable ==> r@ == "Storage unavailable"@,
    {
        match self {
            WebError::NotLoggedIn => "User is not logged in",
            WebError::InvalidInput => "Invalid input",
            WebError::StorageUnavailable => "Storage unavailable",
        }
    }
}

} // verus!
