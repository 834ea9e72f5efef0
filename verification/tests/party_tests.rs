use raid_tracker::catalog::{Catalog, PrerequisiteEdge};
use raid_tracker::data::{Character, Raid, WebError};
use raid_tracker::party::{aggregate_party, PartyAccount};
use raid_tracker::reward::MemberState;

fn raid(id: i32, name: &str, difficulty: &str, required_item_level: i32, three_weekly: bool) -> Raid {
    Raid {
        id,
        name: name.to_string(),
        difficulty: difficulty.to_string(),
        required_item_level,
        three_weekly,
    }
}

fn member(id: i32, name: &str, support: bool, item_level: i32, completed: Vec<i32>) -> MemberState {
    MemberState {
        character: Character {
            id,
            user_id: 1,
            name: name.to_string(),
            class_id: if support { 2 } else { 1 },
            item_level,
        },
        support,
        completed,
    }
}

#[test]
fn party_buckets_by_role_and_reward() {
    // Two accounts. The first brings a damage dealer and a support, both
    // earning. In the second, six under-geared characters are already
    // active, so its newcomer attends without earning: the no-reward
    // bucket.
    let cat = Catalog::new(
        vec![raid(1, "Citadel", "Normal", 50, false), raid(2, "Training", "Normal", 0, false)],
        Vec::new(),
    )
    .unwrap();
    let mut crowded: Vec<MemberState> =
        (10..16).map(|i| member(i, "Vet", false, 10, vec![2])).collect();
    crowded.push(member(3, "Worn", false, 100, Vec::new()));
    let accounts = vec![
        PartyAccount {
            members: vec![
                member(1, "Blade", false, 100, Vec::new()),
                member(2, "Mender", true, 100, Vec::new()),
            ],
        },
        PartyAccount { members: crowded },
    ];
    let listing = aggregate_party(&cat, &accounts).unwrap();
    assert_eq!(listing.len(), 2);
    let citadel = listing.iter().find(|b| b.name == "Citadel").unwrap();
    assert_eq!(citadel.difficulty, "Normal");
    assert_eq!(citadel.dd, vec!["Blade".to_string()]);
    assert_eq!(citadel.support, vec!["Mender".to_string()]);
    assert_eq!(citadel.dd_nogold, vec!["Worn".to_string()]);
    assert_eq!(citadel.support_nogold, Vec::<String>::new());
}

#[test]
fn party_omits_completed_and_unavailable_members() {
    // Done has cleared the raid, Green is under-geared, Late is blocked
    // by a prerequisite: none of them appears anywhere for it.
    let cat = Catalog::new(
        vec![raid(1, "Citadel", "Normal", 50, false), raid(2, "Spire", "Normal", 0, false)],
        vec![PrerequisiteEdge { raid: 1, requires: 2 }],
    )
    .unwrap();
    let accounts = vec![PartyAccount {
        members: vec![
            member(1, "Done", false, 100, vec![1]),
            member(2, "Green", false, 10, vec![2]),
            member(3, "Late", false, 100, Vec::new()),
            member(4, "Ready", false, 100, vec![2]),
        ],
    }];
    let listing = aggregate_party(&cat, &accounts).unwrap();
    let citadel = listing.iter().find(|b| b.name == "Citadel").unwrap();
    assert_eq!(citadel.dd, vec!["Ready".to_string()]);
    assert_eq!(citadel.dd_nogold, Vec::<String>::new());
    assert_eq!(citadel.support, Vec::<String>::new());
    assert_eq!(citadel.support_nogold, Vec::<String>::new());
}

#[test]
fn party_bucket_order_follows_member_order() {
    let cat = Catalog::new(vec![raid(1, "Citadel", "Normal", 0, false)], Vec::new()).unwrap();
    let accounts = vec![
        PartyAccount {
            members: vec![
                member(1, "First", false, 10, Vec::new()),
                member(2, "Second", false, 10, Vec::new()),
            ],
        },
        PartyAccount { members: vec![member(3, "Third", false, 10, Vec::new())] },
    ];
    let listing = aggregate_party(&cat, &accounts).unwrap();
    assert_eq!(
        listing[0].dd,
        vec!["First".to_string(), "Second".to_string(), "Third".to_string()]
    );
}

#[test]
fn party_account_quota_is_judged_per_account() {
    // Six active characters in the first account lock its own newcomer
    // out of rewards, but not the second account's newcomer.
    let cat = Catalog::new(
        vec![raid(1, "A", "Normal", 0, false), raid(2, "B", "Normal", 0, false)],
        Vec::new(),
    )
    .unwrap();
    let mut crowded: Vec<MemberState> =
        (1..=6).map(|i| member(i, "Vet", false, 10, vec![1])).collect();
    crowded.push(member(7, "Late", false, 10, Vec::new()));
    let accounts = vec![
        PartyAccount { members: crowded },
        PartyAccount { members: vec![member(8, "Fresh", false, 10, Vec::new())] },
    ];
    let listing = aggregate_party(&cat, &accounts).unwrap();
    let b = listing.iter().find(|b| b.name == "B").unwrap();
    // Raid B is uncompleted by everyone; Late earns nothing, Fresh earns.
    assert!(b.dd_nogold.contains(&"Late".to_string()));
    assert!(b.dd.contains(&"Fresh".to_string()));
    assert!(!b.dd.contains(&"Late".to_string()));
}

#[test]
fn raid_label_joins_name_and_difficulty() {
    let cat = Catalog::new(vec![raid(1, "Citadel", "Hard", 0, false)], Vec::new()).unwrap();
    let listing = aggregate_party(&cat, &Vec::new()).unwrap();
    assert_eq!(listing[0].label(), "Citadel Hard");
}

#[test]
fn party_rejects_malformed_account() {
    let cat = Catalog::new(vec![raid(1, "A", "Normal", 0, false)], Vec::new()).unwrap();
    let accounts = vec![PartyAccount { members: vec![member(1, "Ghost", false, 10, vec![9])] }];
    assert_eq!(aggregate_party(&cat, &accounts).unwrap_err(), WebError::InvalidInput);
}
