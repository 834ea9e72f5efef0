use raid_tracker::catalog::{Catalog, PrerequisiteEdge};
use raid_tracker::data::{Raid, WebError};

fn raid(id: i32, name: &str, difficulty: &str, required_item_level: i32, three_weekly: bool) -> Raid {
    Raid {
        id,
        name: name.to_string(),
        difficulty: difficulty.to_string(),
        required_item_level,
        three_weekly,
    }
}

#[test]
fn catalog_sorts_by_level_then_id() {
    let raids = vec![
        raid(5, "Citadel", "Hard", 200, false),
        raid(2, "Spire", "Normal", 100, false),
        raid(9, "Citadel", "Normal", 150, false),
        raid(1, "Spire", "Hard", 150, false),
    ];
    let cat = Catalog::new(raids, Vec::new()).unwrap();
    let ids: Vec<i32> = cat.raids().iter().map(|r| r.id).collect();
    assert_eq!(ids, vec![2, 1, 9, 5]);
}

#[test]
fn catalog_keeps_edges_as_given() {
    let raids = vec![raid(1, "Spire", "Normal", 10, false), raid(2, "Spire", "Hard", 20, false)];
    let edges = vec![
        PrerequisiteEdge { raid: 2, requires: 1 },
        PrerequisiteEdge { raid: 1, requires: 2 },
    ];
    let cat = Catalog::new(raids, edges).unwrap();
    assert_eq!(cat.edges().len(), 2);
    assert_eq!(cat.edges()[0].raid, 2);
    assert_eq!(cat.edges()[0].requires, 1);
    assert_eq!(cat.edges()[1].raid, 1);
    assert_eq!(cat.edges()[1].requires, 2);
}

#[test]
fn catalog_rejects_duplicate_ids() {
    let raids = vec![raid(1, "Spire", "Normal", 10, false), raid(1, "Citadel", "Hard", 20, false)];
    assert_eq!(Catalog::new(raids, Vec::new()).unwrap_err(), WebError::InvalidInput);
}

#[test]
fn catalog_rejects_negative_gear_gate() {
    let raids = vec![raid(1, "Spire", "Normal", -1, false)];
    assert_eq!(Catalog::new(raids, Vec::new()).unwrap_err(), WebError::InvalidInput);
}

#[test]
fn catalog_accepts_empty() {
    let cat = Catalog::new(Vec::new(), Vec::new()).unwrap();
    assert_eq!(cat.raids().len(), 0);
    assert_eq!(cat.edges().len(), 0);
}

#[test]
fn raid_by_id_finds_the_raid() {
    let raids = vec![raid(7, "Spire", "Normal", 10, true), raid(3, "Citadel", "Hard", 20, false)];
    let cat = Catalog::new(raids, Vec::new()).unwrap();
    let r = cat.raid_by_id(7).unwrap();
    assert_eq!(r.id, 7);
    assert_eq!(r.name, "Spire");
    assert!(r.three_weekly);
    assert!(cat.raid_by_id(8).is_none());
}
