use artifact_catalog::crea_saluto;
use artifact_catalog::model::{
    ArtifactDetails, Condition, Coordinates, Material, Measurements, Period,
};
use artifact_catalog::stats::generate_report;
use artifact_catalog::store::CatalogStore;

fn plain(name: &str) -> ArtifactDetails {
    ArtifactDetails {
        name: name.to_string(),
        description: String::new(),
        material: Material::Bronze,
        period: Period::Unknown,
        condition: Condition::Good,
        site: String::new(),
        coordinates: None,
        measurements: Measurements::new(),
        notes: Vec::new(),
    }
}

fn count_of(table: &[(String, usize)], key: &str) -> Option<usize> {
    table.iter().find(|(k, _)| k == key).map(|(_, v)| *v)
}

#[test]
fn greeting_is_formatted() {
    assert_eq!(crea_saluto("Rust"), "Ciao, Rust!");
    assert_eq!(crea_saluto(""), "Ciao, !");
}

#[test]
fn condition_scores_run_from_five_to_one() {
    assert_eq!(Condition::Intact.score(), 5);
    assert_eq!(Condition::Good.score(), 4);
    assert_eq!(Condition::Fair.score(), 3);
    assert_eq!(Condition::Fragmentary.score(), 2);
    assert_eq!(Condition::Poor.score(), 1);
}

#[test]
fn labels_name_the_classifications() {
    assert_eq!(Material::Bronze.label(), "Bronze");
    assert_eq!(Material::Other("wood".to_string()).label(), "Other: wood");
    assert_eq!(Period::EarlyIron.label(), "EarlyIron");
    assert_eq!(Condition::Fragmentary.label(), "Fragmentary");
}

#[test]
fn measurements_are_independently_optional() {
    let m = Measurements::new();
    assert_eq!(m.length_mm, None);
    assert_eq!(m.weight_g, None);
    let m = m.with_weight(350);
    assert_eq!(m.weight_g, Some(350));
    assert_eq!(m.length_mm, None);
    let m = m.with_dimensions(10, 20, 30);
    assert_eq!(m.length_mm, Some(10));
    assert_eq!(m.width_mm, Some(20));
    assert_eq!(m.height_mm, Some(30));
    assert_eq!(m.weight_g, Some(350));
}

#[test]
fn volume_needs_all_three_dimensions() {
    let m = Measurements::new().with_dimensions(185, 42, 21);
    assert_eq!(m.approximate_volume(), Some(185 * 42 * 21));
    let partial = Measurements { height_mm: None, ..m };
    assert_eq!(partial.approximate_volume(), None);
    assert_eq!(Measurements::new().approximate_volume(), None);
}

#[test]
fn average_weight_is_absent_without_weights() {
    let mut store = CatalogStore::new();
    store.insert(plain("Axe")).unwrap();
    store.insert(plain("Sword")).unwrap();
    let report = store.statistics();
    assert_eq!(report.weight_count, 0);
    assert_eq!(report.weight_total, 0);
    assert_eq!(report.average_weight, None);
}

#[test]
fn average_weight_is_the_mean_of_present_weights() {
    let mut store = CatalogStore::new();
    let mut d = plain("Axe");
    d.measurements = Measurements::new().with_weight(480);
    store.insert(d).unwrap();
    let mut d = plain("Dagger");
    d.measurements = Measurements::new().with_weight(280);
    store.insert(d).unwrap();
    store.insert(plain("Shard")).unwrap();
    let report = store.statistics();
    assert_eq!(report.weight_count, 2);
    assert_eq!(report.weight_total, 760);
    assert_eq!(report.average_weight, Some(380));
}

#[test]
fn statistics_of_an_empty_snapshot() {
    let report = generate_report(&Vec::new());
    assert_eq!(report.total, 0);
    assert_eq!(report.average_weight, None);
    assert_eq!(report.average_score, 0);
    assert!(report.per_material.is_empty());
    assert!(report.per_period.is_empty());
    assert!(report.per_site.is_empty());
    assert!(report.per_condition.is_empty());
}

#[test]
fn statistics_count_each_label() {
    let mut store = CatalogStore::new();
    let mut d = plain("Axe");
    d.condition = Condition::Intact;
    d.site = "Hilltop".to_string();
    store.insert(d).unwrap();
    let mut d = plain("Sword");
    d.condition = Condition::Poor;
    d.site = "Hilltop".to_string();
    store.insert(d).unwrap();
    let mut d = plain("Shard");
    d.material = Material::Ceramic;
    d.condition = Condition::Intact;
    d.site = "Riverside".to_string();
    store.insert(d).unwrap();
    let mut d = plain("Bead");
    d.material = Material::Other("amber".to_string());
    d.condition = Condition::Intact;
    d.site = "Riverside".to_string();
    store.insert(d).unwrap();

    let report = store.statistics();
    assert_eq!(report.total, 4);
    assert_eq!(count_of(&report.per_material, "Bronze"), Some(2));
    assert_eq!(count_of(&report.per_material, "Ceramic"), Some(1));
    assert_eq!(count_of(&report.per_material, "Other: amber"), Some(1));
    assert_eq!(count_of(&report.per_material, "Gold"), None);
    assert_eq!(count_of(&report.per_site, "Hilltop"), Some(2));
    assert_eq!(count_of(&report.per_site, "Riverside"), Some(2));
    assert_eq!(count_of(&report.per_condition, "Intact"), Some(3));
    assert_eq!(count_of(&report.per_condition, "Poor"), Some(1));
    assert_eq!(count_of(&report.per_period, "Unknown"), Some(4));
    // scores: 5 + 1 + 5 + 5 = 16, mean 4
    assert_eq!(report.score_total, 16);
    assert_eq!(report.average_score, 4);
}

#[test]
fn average_score_truncates_to_the_floor() {
    let mut store = CatalogStore::new();
    let mut d = plain("Axe");
    d.condition = Condition::Intact;
    store.insert(d).unwrap();
    let mut d = plain("Sword");
    d.condition = Condition::Fragmentary;
    store.insert(d).unwrap();
    let report = store.statistics();
    // (5 + 2) / 2 = 3 after truncation
    assert_eq!(report.score_total, 7);
    assert_eq!(report.average_score, 3);
}

#[test]
fn export_of_an_empty_store() {
    let store = CatalogStore::new();
    assert_eq!(store.export().unwrap(), "[]");
}

#[test]
fn export_renders_every_field() {
    let mut store = CatalogStore::new();
    let d = ArtifactDetails {
        name: "Axe".to_string(),
        description: "a bronze axe".to_string(),
        material: Material::Bronze,
        period: Period::FinalBronze,
        condition: Condition::Good,
        site: "Savignano Irpino".to_string(),
        coordinates: Some(Coordinates { lat_microdeg: 41_224_700, lon_microdeg: -15_178_800 }),
        measurements: Measurements::new().with_dimensions(185, 42, 21).with_weight(350),
        notes: vec!["uniform patina".to_string(), "slight nick".to_string()],
    };
    store.insert(d).unwrap();
    let expected = String::from("[{\"id\":1,\"name\":\"Axe\",\"description\":\"a bronze axe\",")
        + "\"material\":{\"tag\":\"Bronze\"},\"period\":\"FinalBronze\","
        + "\"condition\":\"Good\",\"site\":\"Savignano Irpino\","
        + "\"coordinates\":{\"lat_microdeg\":41224700,\"lon_microdeg\":-15178800},"
        + "\"measurements\":{\"length_mm\":185,\"width_mm\":42,\"height_mm\":21,\"weight_g\":350},"
        + "\"notes\":[\"uniform patina\",\"slight nick\"]}]";
    assert_eq!(store.export().unwrap(), expected);
}

#[test]
fn export_tags_the_open_ended_material_and_absent_fields() {
    let mut store = CatalogStore::new();
    let d = ArtifactDetails {
        name: "Bead".to_string(),
        description: String::new(),
        material: Material::Other("amber".to_string()),
        period: Period::Unknown,
        condition: Condition::Fair,
        site: "X".to_string(),
        coordinates: None,
        measurements: Measurements::new(),
        notes: Vec::new(),
    };
    store.insert(d).unwrap();
    let expected = String::from("[{\"id\":1,\"name\":\"Bead\",\"description\":\"\",")
        + "\"material\":{\"tag\":\"Other\",\"label\":\"amber\"},\"period\":\"Unknown\","
        + "\"condition\":\"Fair\",\"site\":\"X\",\"coordinates\":null,"
        + "\"measurements\":{\"length_mm\":null,\"width_mm\":null,\"height_mm\":null,"
        + "\"weight_g\":null},\"notes\":[]}]";
    assert_eq!(store.export().unwrap(), expected);
}

#[test]
fn export_escapes_json_characters() {
    let mut store = CatalogStore::new();
    let mut d = plain("a\"b\\c\nd\te\u{1}f");
    d.notes.push("line\r".to_string());
    store.insert(d).unwrap();
    let text = store.export().unwrap();
    assert!(text.contains("\"name\":\"a\\\"b\\\\c\\nd\\te\\u0001f\""));
    assert!(text.contains("\"notes\":[\"line\\r\"]"));
}

#[test]
fn export_lists_artifacts_in_identifier_order() {
    let mut store = CatalogStore::new();
    store.insert(plain("A")).unwrap();
    store.insert(plain("B")).unwrap();
    store.remove(1).unwrap();
    store.insert(plain("C")).unwrap();
    let text = store.export().unwrap();
    let b_at = text.find("\"name\":\"B\"").unwrap();
    let c_at = text.find("\"name\":\"C\"").unwrap();
    assert!(b_at < c_at);
    assert!(!text.contains("\"name\":\"A\""));
}
