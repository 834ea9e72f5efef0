use raid_tracker::data::{Character, Class, Group, GroupMember, User, UserId, WebError};
use raid_tracker::groups::{add_member, groups_of, is_creator, is_member, members_of, remove_member};
use raid_tracker::roster::{
    owns_character, sort_characters_by_level, support_of_class, CharUpdate, CharacterEdit,
};

fn group(id: i32, name: &str, creator_id: i32) -> Group {
    Group { id, name: name.to_string(), creator_id }
}

fn character(id: i32, user_id: i32, name: &str, item_level: i32) -> Character {
    Character { id, user_id, name: name.to_string(), class_id: 1, item_level }
}

#[test]
fn membership_and_creator_checks() {
    let groups = vec![group(1, "Raiders", 10), group(2, "Casuals", 11)];
    let memberships = vec![
        GroupMember { group_id: 1, user_id: 10 },
        GroupMember { group_id: 1, user_id: 11 },
        GroupMember { group_id: 2, user_id: 11 },
    ];
    assert!(is_member(&memberships, 1, 10));
    assert!(is_member(&memberships, 1, 11));
    assert!(!is_member(&memberships, 2, 10));
    assert!(is_creator(&groups, 1, 10));
    assert!(!is_creator(&groups, 1, 11));
    assert!(!is_creator(&groups, 3, 10));
}

#[test]
fn groups_of_filters_by_membership() {
    let groups = vec![group(1, "Raiders", 10), group(2, "Casuals", 11), group(3, "Idle", 12)];
    let memberships = vec![
        GroupMember { group_id: 1, user_id: 10 },
        GroupMember { group_id: 3, user_id: 10 },
        GroupMember { group_id: 2, user_id: 11 },
    ];
    let mine = groups_of(&groups, &memberships, 10);
    let ids: Vec<i32> = mine.iter().map(|g| g.id).collect();
    assert_eq!(ids, vec![1, 3]);
    assert_eq!(mine[0].name, "Raiders");
}

#[test]
fn members_of_lists_in_row_order() {
    let memberships = vec![
        GroupMember { group_id: 1, user_id: 10 },
        GroupMember { group_id: 2, user_id: 12 },
        GroupMember { group_id: 1, user_id: 11 },
    ];
    assert_eq!(members_of(&memberships, 1), vec![10, 11]);
    assert_eq!(members_of(&memberships, 9), Vec::<i32>::new());
}

#[test]
fn add_member_is_idempotent() {
    let mut memberships = vec![GroupMember { group_id: 1, user_id: 10 }];
    add_member(&mut memberships, 1, 11);
    assert_eq!(memberships.len(), 2);
    add_member(&mut memberships, 1, 11);
    assert_eq!(memberships.len(), 2);
    assert!(is_member(&memberships, 1, 11));
}

#[test]
fn remove_member_deletes_the_pair() {
    let mut memberships = vec![
        GroupMember { group_id: 1, user_id: 10 },
        GroupMember { group_id: 1, user_id: 11 },
        GroupMember { group_id: 2, user_id: 11 },
    ];
    remove_member(&mut memberships, 1, 11);
    assert_eq!(memberships.len(), 2);
    assert!(!is_member(&memberships, 1, 11));
    assert!(is_member(&memberships, 2, 11));
    assert!(is_member(&memberships, 1, 10));
}

#[test]
fn ownership_check() {
    let chars = vec![character(1, 10, "Blade", 100), character(2, 11, "Mender", 90)];
    assert!(owns_character(&chars, 10, 1));
    assert!(!owns_character(&chars, 11, 1));
    assert!(!owns_character(&chars, 10, 3));
}

#[test]
fn roster_sorts_by_level_descending_ties_by_id() {
    let chars = vec![
        character(3, 10, "Low", 50),
        character(2, 10, "HighB", 120),
        character(1, 10, "HighA", 120),
        character(4, 10, "Mid", 90),
    ];
    let sorted = sort_characters_by_level(chars);
    let ids: Vec<i32> = sorted.iter().map(|c| c.id).collect();
    assert_eq!(ids, vec![1, 2, 4, 3]);
}

#[test]
fn char_update_rows_pairs_columns() {
    let update = CharUpdate {
        cuid: vec![10, 10],
        cid: vec![1, 2],
        cname: vec!["NewA".to_string(), "B".to_string()],
        oldcname: vec!["A".to_string(), "B".to_string()],
        cclass_id: vec![1, 2],
        oldcclass_id: vec![1, 2],
        item_level: vec![110, 90],
        olditem_level: vec![100, 90],
    };
    let rows = update.rows().unwrap();
    assert_eq!(rows.len(), 2);
    assert_eq!(rows[0].character_id, 1);
    assert_eq!(rows[0].name, "NewA");
    assert_eq!(rows[0].old_name, "A");
    assert!(rows[0].needs_update());
    assert!(!rows[1].needs_update());
}

#[test]
fn char_update_rejects_misaligned_columns() {
    let update = CharUpdate {
        cuid: vec![10, 10],
        cid: vec![1],
        cname: vec!["A".to_string()],
        oldcname: vec!["A".to_string()],
        cclass_id: vec![1],
        oldcclass_id: vec![1],
        item_level: vec![100],
        olditem_level: vec![100],
    };
    assert_eq!(update.rows().unwrap_err(), WebError::InvalidInput);
}

#[test]
fn needs_update_sees_each_field() {
    let base = CharacterEdit {
        user_id: 10,
        character_id: 1,
        name: "A".to_string(),
        old_name: "A".to_string(),
        class_id: 1,
        old_class_id: 1,
        item_level: 100,
        old_item_level: 100,
    };
    assert!(!base.needs_update());
    let mut renamed = base.clone();
    renamed.name = "B".to_string();
    assert!(renamed.needs_update());
    let mut reclassed = base.clone();
    reclassed.class_id = 2;
    assert!(reclassed.needs_update());
    let mut regeared = base.clone();
    regeared.item_level = 120;
    assert!(regeared.needs_update());
}

#[test]
fn class_role_lookup() {
    let classes = vec![
        Class { id: 1, name: "Berserker".to_string(), support: false },
        Class { id: 2, name: "Bard".to_string(), support: true },
    ];
    assert_eq!(support_of_class(&classes, 1), Some(false));
    assert_eq!(support_of_class(&classes, 2), Some(true));
    assert_eq!(support_of_class(&classes, 3), None);
}

#[test]
fn error_messages_and_user_id() {
    assert_eq!(WebError::NotLoggedIn.message(), "User is not logged in");
    assert_eq!(WebError::InvalidInput.message(), "Invalid input");
    assert_eq!(WebError::StorageUnavailable.message(), "Storage unavailable");
    let uid = UserId(42);
    assert_eq!(uid.value(), 42);
    let account = User { username: "ada".to_string(), password: "pw".to_string() };
    assert_eq!(account.username, "ada");
    assert!(!account.password.is_empty());
}
