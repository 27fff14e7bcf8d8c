use usda_plants::matcher::cross_reference;
use usda_plants::matcher::SpeciesIndex;
use usda_plants::species::SpeciesName;

fn key(name: &str) -> SpeciesName {
    SpeciesName::new(name.to_string()).unwrap()
}

#[test]
fn lookup_finds_inserted_key() {
    let mut idx = SpeciesIndex::new();
    idx.insert(key("Quercus alba"), 7);
    idx.insert(key("Acer rubrum"), 9);
    assert_eq!(idx.lookup(&key("Quercus alba")), Some(7));
    assert_eq!(idx.lookup(&key("Acer rubrum")), Some(9));
    assert_eq!(idx.lookup(&key("Pinus strobus")), None);
}

#[test]
fn first_writer_wins_on_duplicate_keys() {
    let mut idx = SpeciesIndex::new();
    idx.insert(key("Quercus alba"), 7);
    idx.insert(key("Quercus alba"), 8);
    assert_eq!(idx.lookup(&key("Quercus alba")), Some(7));
}

#[test]
fn keys_differing_only_in_one_field_stay_distinct() {
    let mut idx = SpeciesIndex::new();
    idx.insert(key("Quercus alba"), 1);
    idx.insert(key("Quercus alba prima"), 2);
    idx.insert(key("Quercus x alba"), 3);
    assert_eq!(idx.lookup(&key("Quercus alba")), Some(1));
    assert_eq!(idx.lookup(&key("Quercus alba prima")), Some(2));
    assert_eq!(idx.lookup(&key("Quercus x alba")), Some(3));
}

#[test]
fn cross_reference_joins_and_reports_misses() {
    let mut a = SpeciesIndex::new();
    a.insert(key("Quercus alba"), 1);
    a.insert(key("Acer rubrum"), 2);
    a.insert(key("Pinus strobus"), 3);
    let mut b = SpeciesIndex::new();
    b.insert(key("Acer rubrum"), 20);
    b.insert(key("Quercus alba"), 10);
    let report = cross_reference(&a, &b);
    assert_eq!(report.pairs, vec![(1, 10), (2, 20)]);
    assert_eq!(report.misses, vec![3]);
}

#[test]
fn cross_reference_of_empty_sources_is_empty() {
    let a = SpeciesIndex::new();
    let b = SpeciesIndex::new();
    let report = cross_reference(&a, &b);
    assert!(report.pairs.is_empty());
    assert!(report.misses.is_empty());
}
