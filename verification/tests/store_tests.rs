use artifact_catalog::errors::CatalogError;
use artifact_catalog::model::{
    Artifact, ArtifactDetails, Condition, Coordinates, Material, Measurements, Period,
};
use artifact_catalog::store::CatalogStore;

fn details(name: &str, material: Material, weight_g: Option<u32>) -> ArtifactDetails {
    let mut measurements = Measurements::new();
    if let Some(w) = weight_g {
        measurements = measurements.with_weight(w);
    }
    ArtifactDetails {
        name: name.to_string(),
        description: String::new(),
        material,
        period: Period::Unknown,
        condition: Condition::Good,
        site: String::new(),
        coordinates: None,
        measurements,
        notes: Vec::new(),
    }
}

fn names(found: &[Artifact]) -> Vec<String> {
    found.iter().map(|a| a.details.name.clone()).collect()
}

#[test]
fn new_store_is_empty() {
    let store = CatalogStore::new();
    assert_eq!(store.count(), 0);
    assert!(store.list_all().is_empty());
}

#[test]
fn insert_assigns_identifiers_from_one() {
    let mut store = CatalogStore::new();
    let a = store.insert(details("Axe", Material::Bronze, None)).unwrap();
    let b = store.insert(details("Sword", Material::Iron, None)).unwrap();
    assert_eq!(a, 1);
    assert_eq!(b, 2);
    assert_eq!(store.count(), 2);
}

#[test]
fn identifiers_grow_even_across_removals() {
    let mut store = CatalogStore::new();
    let mut seen: Vec<u64> = Vec::new();
    seen.push(store.insert(details("A", Material::Bronze, None)).unwrap());
    seen.push(store.insert(details("B", Material::Bronze, None)).unwrap());
    store.remove(seen[0]).unwrap();
    seen.push(store.insert(details("C", Material::Bronze, None)).unwrap());
    store.remove(seen[2]).unwrap();
    seen.push(store.insert(details("D", Material::Bronze, None)).unwrap());
    for w in seen.windows(2) {
        assert!(w[0] < w[1]);
    }
    assert_eq!(seen, vec![1, 2, 3, 4]);
}

#[test]
fn empty_name_is_rejected_and_nothing_changes() {
    let mut store = CatalogStore::new();
    store.insert(details("Axe", Material::Bronze, None)).unwrap();
    let before = store.count();
    let r = store.insert(details("", Material::Bronze, None));
    assert_eq!(r, Err(CatalogError::EmptyName));
    assert_eq!(store.count(), before);
    // the rejected insertion consumed no identifier
    let next = store.insert(details("Sword", Material::Iron, None)).unwrap();
    assert_eq!(next, 2);
}

#[test]
fn whitespace_only_name_is_rejected() {
    let mut store = CatalogStore::new();
    let r = store.insert(details(" \t\r\n ", Material::Bronze, None));
    assert_eq!(r, Err(CatalogError::EmptyName));
    assert_eq!(store.count(), 0);
}

#[test]
fn unicode_whitespace_only_name_is_rejected() {
    let mut store = CatalogStore::new();
    // a lone no-break space is white space that trim() would strip
    let r = store.insert(details("\u{a0}", Material::Bronze, None));
    assert_eq!(r, Err(CatalogError::EmptyName));
    // next line, em space, narrow no-break space, ideographic space
    let r = store.insert(details("\u{85}\u{2003}\u{202f}\u{3000}", Material::Bronze, None));
    assert_eq!(r, Err(CatalogError::EmptyName));
    assert_eq!(store.count(), 0);
}

#[test]
fn name_with_surrounding_whitespace_is_accepted() {
    let mut store = CatalogStore::new();
    let id = store.insert(details("  Axe  ", Material::Bronze, None)).unwrap();
    assert_eq!(id, 1);
    assert_eq!(store.count(), 1);
}

#[test]
fn get_after_insert_returns_the_inserted_record() {
    let mut store = CatalogStore::new();
    let d = ArtifactDetails {
        name: "Fibula".to_string(),
        description: "an arched brooch".to_string(),
        material: Material::Other("electrum".to_string()),
        period: Period::EarlyIron,
        condition: Condition::Intact,
        site: "Pontecagnano".to_string(),
        coordinates: Some(Coordinates { lat_microdeg: 40_643_500, lon_microdeg: 14_871_500 }),
        measurements: Measurements::new().with_dimensions(85, 30, 20).with_weight(45),
        notes: vec!["intact pin".to_string()],
    };
    let id = store.insert(d.clone()).unwrap();
    let got = store.get_by_id(id).unwrap();
    assert_eq!(got.id, id);
    assert_eq!(got.details.name, d.name);
    assert_eq!(got.details.description, d.description);
    assert!(got.details.material == d.material);
    assert_eq!(got.details.period, d.period);
    assert_eq!(got.details.condition, d.condition);
    assert_eq!(got.details.site, d.site);
    assert_eq!(got.details.coordinates, d.coordinates);
    assert_eq!(got.details.measurements, d.measurements);
    assert_eq!(got.details.notes, d.notes);
}

#[test]
fn get_unknown_identifier_fails() {
    let store = CatalogStore::new();
    let r = store.get_by_id(99);
    assert!(matches!(r, Err(CatalogError::NotFound(99))));
}

#[test]
fn remove_returns_the_record_and_forgets_the_identifier() {
    let mut store = CatalogStore::new();
    let id = store.insert(details("Axe", Material::Bronze, None)).unwrap();
    let removed = store.remove(id).unwrap();
    assert_eq!(removed.id, id);
    assert_eq!(removed.details.name, "Axe");
    assert_eq!(store.count(), 0);
    assert!(matches!(store.get_by_id(id), Err(CatalogError::NotFound(i)) if i == id));
    // a later insertion never reuses the freed identifier
    let fresh = store.insert(details("Sword", Material::Iron, None)).unwrap();
    assert_ne!(fresh, id);
}

#[test]
fn remove_unknown_identifier_fails() {
    let mut store = CatalogStore::new();
    store.insert(details("Axe", Material::Bronze, None)).unwrap();
    assert!(matches!(store.remove(7), Err(CatalogError::NotFound(7))));
    assert_eq!(store.count(), 1);
}

#[test]
fn append_note_is_strictly_additive() {
    let mut store = CatalogStore::new();
    let mut d = details("Axe", Material::Bronze, None);
    d.notes.push("first".to_string());
    let id = store.insert(d).unwrap();
    let original_len = store.get_by_id(id).unwrap().details.notes.len();
    store.append_note(id, "second").unwrap();
    store.append_note(id, "third").unwrap();
    store.append_note(id, "fourth").unwrap();
    let notes = &store.get_by_id(id).unwrap().details.notes;
    assert_eq!(notes.len(), original_len + 3);
    assert_eq!(notes[0], "first");
    assert_eq!(notes[1], "second");
    assert_eq!(notes[2], "third");
    assert_eq!(notes[3], "fourth");
}

#[test]
fn append_note_to_unknown_identifier_fails() {
    let mut store = CatalogStore::new();
    let r = store.append_note(5, "lost");
    assert!(matches!(r, Err(CatalogError::NotFound(5))));
}

#[test]
fn find_by_name_is_case_insensitive_substring() {
    let mut store = CatalogStore::new();
    store.insert(details("Axe", Material::Bronze, None)).unwrap();
    store.insert(details("Sword", Material::Bronze, None)).unwrap();
    store.insert(details("axe-head", Material::Stone, None)).unwrap();
    let found = store.find_by_name("AXE");
    assert_eq!(names(&found), vec!["Axe".to_string(), "axe-head".to_string()]);
    let none = store.find_by_name("dagger");
    assert!(none.is_empty());
}

#[test]
fn find_by_name_with_empty_pattern_returns_everything() {
    let mut store = CatalogStore::new();
    store.insert(details("Axe", Material::Bronze, None)).unwrap();
    store.insert(details("Sword", Material::Iron, None)).unwrap();
    store.insert(details("Ring", Material::Gold, None)).unwrap();
    let found = store.find_by_name("");
    assert_eq!(found.len(), 3);
    assert_eq!(names(&found), vec!["Axe".to_string(), "Sword".to_string(), "Ring".to_string()]);
}

#[test]
fn find_by_name_folds_ascii_only() {
    let mut store = CatalogStore::new();
    store.insert(details("Épée", Material::Iron, None)).unwrap();
    // the ASCII-safe fold leaves accented letters alone
    assert!(store.find_by_name("épée").is_empty());
    assert!(store.find_by_name("ép").is_empty());
    // the ASCII letters still match case-insensitively
    assert_eq!(store.find_by_name("Ép").len(), 1);
    assert_eq!(store.find_by_name("ÉP").len(), 1);
}

#[test]
fn find_by_material_matches_exactly() {
    let mut store = CatalogStore::new();
    store.insert(details("Axe", Material::Bronze, None)).unwrap();
    store.insert(details("Shard", Material::Ceramic, None)).unwrap();
    store.insert(details("Bead", Material::Other("amber".to_string()), None)).unwrap();
    store.insert(details("Pin", Material::Other("ivory".to_string()), None)).unwrap();
    assert_eq!(store.find_by_material(&Material::Bronze).len(), 1);
    assert_eq!(store.find_by_material(&Material::Gold).len(), 0);
    let amber = store.find_by_material(&Material::Other("amber".to_string()));
    assert_eq!(names(&amber), vec!["Bead".to_string()]);
    assert!(store.find_by_material(&Material::Other("bone".to_string())).is_empty());
}

#[test]
fn find_by_period_matches_exactly() {
    let mut store = CatalogStore::new();
    let mut d = details("Axe", Material::Bronze, None);
    d.period = Period::FinalBronze;
    store.insert(d).unwrap();
    let mut d = details("Sword", Material::Bronze, None);
    d.period = Period::FinalBronze;
    store.insert(d).unwrap();
    let mut d = details("Fibula", Material::Bronze, None);
    d.period = Period::EarlyIron;
    store.insert(d).unwrap();
    assert_eq!(store.find_by_period(Period::FinalBronze).len(), 2);
    assert_eq!(store.find_by_period(Period::EarlyIron).len(), 1);
    assert_eq!(store.find_by_period(Period::MiddleBronze).len(), 0);
}

#[test]
fn find_by_site_is_case_insensitive_substring() {
    let mut store = CatalogStore::new();
    let mut d = details("Axe", Material::Bronze, None);
    d.site = "Savignano Irpino".to_string();
    store.insert(d).unwrap();
    let mut d = details("Fibula", Material::Bronze, None);
    d.site = "Pontecagnano".to_string();
    store.insert(d).unwrap();
    assert_eq!(store.find_by_site("pontecagnano").len(), 1);
    assert_eq!(store.find_by_site("IRPINO").len(), 1);
    assert_eq!(store.find_by_site("ano").len(), 2);
    assert!(store.find_by_site("Toppo").is_empty());
}

#[test]
fn list_all_is_in_ascending_identifier_order() {
    let mut store = CatalogStore::new();
    store.insert(details("A", Material::Bronze, None)).unwrap();
    store.insert(details("B", Material::Bronze, None)).unwrap();
    store.insert(details("C", Material::Bronze, None)).unwrap();
    store.remove(2).unwrap();
    store.insert(details("D", Material::Bronze, None)).unwrap();
    let ids: Vec<u64> = store.list_all().iter().map(|a| a.id).collect();
    assert_eq!(ids, vec![1, 3, 4]);
}

#[test]
fn example_scenario_axes_and_sword() {
    let mut store = CatalogStore::new();
    let a = store.insert(details("Axe", Material::Bronze, Some(350))).unwrap();
    let b = store.insert(details("Sword", Material::Bronze, None)).unwrap();
    let c = store.insert(details("axe-head", Material::Stone, Some(50))).unwrap();

    let found = store.find_by_name("axe");
    let found_ids: Vec<u64> = found.iter().map(|x| x.id).collect();
    assert_eq!(found_ids, vec![a, c]);

    let report = store.statistics();
    assert_eq!(report.total, 3);
    assert_eq!(report.weight_count, 2);
    assert_eq!(report.weight_total, 400);
    assert_eq!(report.average_weight, Some(200));
    assert_eq!(store.count(), 3);

    store.remove(b).unwrap();
    assert!(matches!(store.get_by_id(b), Err(CatalogError::NotFound(i)) if i == b));
}
