use tolerance_api::scoring::{
    normalize_requirement_id, CmmcLevel, Priority, ScoreJson, ScoringDatabase,
};

#[test]
fn test_load_scoring() {
    let db = ScoringDatabase::new();
    let score = db.get_score("03.01.01").expect("Should have 03.01.01");
    assert_eq!(score.cmmc_level, CmmcLevel::Level1);
    assert!(score.is_foundational);
}

#[test]
fn test_get_by_level() {
    let db = ScoringDatabase::new();
    let level1 = db.get_by_level(CmmcLevel::Level1);
    assert_eq!(level1.len(), 17);
}

#[test]
fn test_calculate_points() {
    let db = ScoringDatabase::new();
    let total = db.calculate_total_points(&["03.01.01".into(), "03.01.02".into()]);
    assert_eq!(total, 10);
}

#[test]
fn test_total_weight_matches_sprs_floor() {
    let db = ScoringDatabase::new();
    let all: Vec<String> = db.all_requirement_ids();
    assert_eq!(all.len(), 110);
    assert_eq!(db.calculate_total_points(&all), 313);
}

#[test]
fn test_r2_form_lookup_normalizes() {
    let db = ScoringDatabase::new();
    let r2 = db.get_score("3.5.3").expect("r2 form should resolve");
    let r3 = db.get_score("03.05.03").expect("r3 form should resolve");
    assert_eq!(r2.point_value, r3.point_value);
    assert_eq!(r2.point_value, 5);
    assert!(db.get_score("3.1.1e").is_none());
}

#[test]
fn normalize_examples() {
    assert_eq!(normalize_requirement_id("3.5.3").as_deref(), Some("03.05.03"));
    assert_eq!(normalize_requirement_id("03.05.03").as_deref(), Some("03.05.03"));
    assert_eq!(normalize_requirement_id("+3.005.3").as_deref(), Some("03.05.03"));
    assert_eq!(normalize_requirement_id("3.100.255").as_deref(), Some("03.100.255"));
    assert_eq!(normalize_requirement_id("3.1.256"), None);
    assert_eq!(normalize_requirement_id("3.1.1e"), None);
    assert_eq!(normalize_requirement_id("3.1"), None);
    assert_eq!(normalize_requirement_id("3.1.1.1"), None);
    assert_eq!(normalize_requirement_id("3..1"), None);
    assert_eq!(normalize_requirement_id("-3.1.1"), None);
    assert_eq!(normalize_requirement_id("+.1.1"), None);
}

#[test]
fn normalize_is_idempotent() {
    for id in ["3.5.3", "03.13.11", "7.0.42"] {
        let once = normalize_requirement_id(id).unwrap();
        assert_eq!(normalize_requirement_id(&once), Some(once.clone()));
    }
}

#[test]
fn annex_table_weights() {
    let db = ScoringDatabase::new();
    let count = |p: u8| {
        db.all_requirement_ids()
            .iter()
            .filter(|id| db.get_score(id).unwrap().point_value == p)
            .count()
    };
    assert_eq!(count(5), 44);
    assert_eq!(count(3), 14);
    assert_eq!(count(1), 51);
    assert_eq!(count(0), 1);
    assert_eq!(db.get_score("03.12.04").unwrap().point_value, 0);
    assert_eq!(db.get_score("03.09.01").unwrap().priority, Priority::Medium);
    assert_eq!(db.get_foundational().len(), 17);
    assert_eq!(db.get_by_level(CmmcLevel::Level3).len(), 0);
}

#[test]
fn unknown_ids_count_nothing() {
    let db = ScoringDatabase::new();
    assert_eq!(
        db.calculate_total_points(&["03.99.99".into(), "3.1.1".into(), "junk".into()]),
        5
    );
}

#[test]
fn from_entries_parses_records() {
    let rec = |level: u8, points: u8, priority: &str| ScoreJson {
        cmmc_level: level,
        point_value: points,
        is_foundational: true,
        priority: priority.to_string(),
        notes: Some("n".to_string()),
    };
    let db = ScoringDatabase::from_entries(&[
        ("a".to_string(), rec(1, 5, "HIGH")),
        ("b".to_string(), rec(4, 5, "high")),
        ("c".to_string(), rec(2, 3, "urgent")),
        ("d".to_string(), rec(3, 1, "Medium")),
        ("a".to_string(), rec(2, 1, "low")),
    ]);
    let ids = db.all_requirement_ids();
    assert_eq!(ids, vec!["a".to_string(), "d".to_string()]);
    let a = db.get_score("a").unwrap();
    assert_eq!(a.cmmc_level, CmmcLevel::Level2);
    assert_eq!(a.priority, Priority::Low);
    assert_eq!(a.notes.as_deref(), Some("n"));
    assert_eq!(db.get_score("d").unwrap().priority, Priority::Medium);
    assert!(db.get_score("b").is_none());
    assert!(db.get_score("c").is_none());
}

#[test]
fn later_invalid_record_drops_identifier() {
    let rec = |level: u8| ScoreJson {
        cmmc_level: level,
        point_value: 1,
        is_foundational: false,
        priority: "low".to_string(),
        notes: None,
    };
    let db = ScoringDatabase::from_entries(&[
        ("x".to_string(), rec(1)),
        ("x".to_string(), rec(9)),
    ]);
    assert!(db.get_score("x").is_none());
    assert!(db.all_requirement_ids().is_empty());
}
