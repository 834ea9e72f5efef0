use raid_tracker::catalog::Catalog;
use raid_tracker::data::{Character, Raid, WebError};
use raid_tracker::reward::{evaluate_rewards, MemberState};

fn raid(id: i32, name: &str, required_item_level: i32, three_weekly: bool) -> Raid {
    Raid {
        id,
        name: name.to_string(),
        difficulty: "Normal".to_string(),
        required_item_level,
        three_weekly,
    }
}

fn member(id: i32, name: &str, completed: Vec<i32>) -> MemberState {
    MemberState {
        character: Character {
            id,
            user_id: 1,
            name: name.to_string(),
            class_id: 1,
            item_level: 100,
        },
        support: false,
        completed,
    }
}

#[test]
fn reward_listing_rows_in_order() {
    // One member, three raids, the middle one already completed: one row
    // per remaining raid, in catalog order.
    let cat = Catalog::new(
        vec![raid(1, "A", 10, false), raid(2, "B", 20, false), raid(3, "C", 30, true)],
        Vec::new(),
    )
    .unwrap();
    let roster = vec![member(7, "Scout", vec![2])];
    let rows = evaluate_rewards(&cat, &roster).unwrap();
    assert_eq!(rows.len(), 2);
    assert_eq!(rows[0].character_id, 7);
    assert_eq!(rows[0].raid_id, 1);
    assert!(rows[0].awards_reward);
    assert_eq!(rows[1].raid_id, 3);
    assert!(rows[1].awards_reward);
}

#[test]
fn personal_cap_exhausts_weekly_capped_rewards() {
    // Three weekly-capped clears spend the personal budget: further
    // weekly-capped raids award nothing, uncapped raids still do.
    let cat = Catalog::new(
        vec![
            raid(1, "C1", 0, true),
            raid(2, "C2", 0, true),
            raid(3, "C3", 0, true),
            raid(4, "C4", 0, true),
            raid(5, "Open", 0, false),
        ],
        Vec::new(),
    )
    .unwrap();
    let roster = vec![member(7, "Scout", vec![1, 2, 3])];
    let rows = evaluate_rewards(&cat, &roster).unwrap();
    assert_eq!(rows.len(), 2);
    assert_eq!(rows[0].raid_id, 4);
    assert!(!rows[0].awards_reward);
    assert_eq!(rows[1].raid_id, 5);
    assert!(rows[1].awards_reward);
}

#[test]
fn sixth_character_still_earns_seventh_does_not() {
    // Five characters already active: the sixth, with no completion yet,
    // still earns on every raid.
    let cat = Catalog::new(vec![raid(1, "A", 0, false), raid(2, "B", 0, false)], Vec::new())
        .unwrap();
    let mut roster: Vec<MemberState> = (1..=5).map(|i| member(i, "Vet", vec![1])).collect();
    roster.push(member(6, "Fresh", Vec::new()));
    let rows = evaluate_rewards(&cat, &roster).unwrap();
    let fresh: Vec<_> = rows.iter().filter(|e| e.character_id == 6).collect();
    assert_eq!(fresh.len(), 2);
    assert!(fresh.iter().all(|e| e.awards_reward));

    // With six characters active, a seventh with no completion earns
    // nothing, on any raid.
    let mut roster: Vec<MemberState> = (1..=6).map(|i| member(i, "Vet", vec![1])).collect();
    roster.push(member(7, "Late", Vec::new()));
    let rows = evaluate_rewards(&cat, &roster).unwrap();
    let late: Vec<_> = rows.iter().filter(|e| e.character_id == 7).collect();
    assert_eq!(late.len(), 2);
    assert!(late.iter().all(|e| !e.awards_reward));
    // The already-active characters are exempt from the account-wide gate.
    let vet: Vec<_> = rows.iter().filter(|e| e.character_id == 1).collect();
    assert!(vet.iter().all(|e| e.awards_reward));
}

#[test]
fn completed_raids_are_omitted_from_rewards() {
    let cat = Catalog::new(vec![raid(1, "A", 0, false)], Vec::new()).unwrap();
    let roster = vec![member(7, "Done", vec![1])];
    let rows = evaluate_rewards(&cat, &roster).unwrap();
    assert_eq!(rows.len(), 0);
}

#[test]
fn reward_rejects_malformed_roster() {
    let cat = Catalog::new(vec![raid(1, "A", 0, false)], Vec::new()).unwrap();
    // A completion naming a raid the catalog does not define.
    let roster = vec![member(7, "Ghost", vec![9])];
    assert_eq!(evaluate_rewards(&cat, &roster).unwrap_err(), WebError::InvalidInput);
    // A negative item level.
    let mut bad = member(8, "Odd", Vec::new());
    bad.character.item_level = -5;
    assert_eq!(evaluate_rewards(&cat, &vec![bad]).unwrap_err(), WebError::InvalidInput);
}
