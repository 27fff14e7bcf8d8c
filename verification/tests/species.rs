use usda_plants::plant::parse_name;
use usda_plants::plant::plant_name_to_species_name;
use usda_plants::species::NormalizationError;
use usda_plants::species::SpeciesName;

#[test]
fn test_to_name() {
    assert_eq!(
        SpeciesName::new("Foo bar".to_string()),
        Ok(SpeciesName {
            genus: "Foo".to_string(),
            specific: "bar".to_string(),
            ssp: None,
            hybrid: false
        })
    );
    assert_eq!(
        SpeciesName::new("Foo x bar".to_string()),
        Ok(SpeciesName {
            genus: "Foo".to_string(),
            specific: "bar".to_string(),
            ssp: None,
            hybrid: true
        })
    );
    assert_eq!(
        SpeciesName::new("Foo bar baz".to_string()),
        Ok(SpeciesName {
            genus: "Foo".to_string(),
            specific: "bar".to_string(),
            ssp: Some("baz".to_string()),
            hybrid: false
        })
    );
}

#[test]
fn normalize_rejects_short_input() {
    assert_eq!(
        SpeciesName::new("Foo".to_string()),
        Err(NormalizationError::TooFewTokens)
    );
    assert_eq!(
        SpeciesName::new("".to_string()),
        Err(NormalizationError::TooFewTokens)
    );
    assert_eq!(
        SpeciesName::new("Foo x".to_string()),
        Err(NormalizationError::MissingHybridEpithet)
    );
    assert_eq!(
        SpeciesName::new("Foo X".to_string()),
        Err(NormalizationError::MissingHybridEpithet)
    );
}

#[test]
fn normalize_hybrid_branch_ignores_trailing_tokens() {
    // In the hybrid form the subspecies stays absent whatever follows.
    assert_eq!(
        SpeciesName::new("Foo x bar baz".to_string()),
        Ok(SpeciesName {
            genus: "Foo".to_string(),
            specific: "bar".to_string(),
            ssp: None,
            hybrid: true
        })
    );
    // The upper-case hybrid token works the same way.
    assert_eq!(
        SpeciesName::new("Foo X bar".to_string()),
        Ok(SpeciesName {
            genus: "Foo".to_string(),
            specific: "bar".to_string(),
            ssp: None,
            hybrid: true
        })
    );
}

#[test]
fn normalize_multiword_subspecies_is_dropped() {
    assert_eq!(
        SpeciesName::new("Foo bar baz qux".to_string()),
        Ok(SpeciesName {
            genus: "Foo".to_string(),
            specific: "bar".to_string(),
            ssp: None,
            hybrid: false
        })
    );
}

#[test]
fn species_name_joins_genus_and_specific() {
    let mut sn = SpeciesName::new("Foo bar baz".to_string()).unwrap();
    assert_eq!(sn.species_name(), "Foo bar");
}

#[test]
fn subspecies_key_distinguishes_absent_from_present() {
    let with_ssp = SpeciesName::new("Foo bar baz".to_string()).unwrap();
    let without = SpeciesName::new("Foo bar".to_string()).unwrap();
    assert_ne!(with_ssp, without);
}

#[test]
fn derived_key_with_subspecies_never_matches_hybrid_branch_key() {
    // The two key-construction paths intentionally disagree here: a key
    // projected from a parsed name keeps its subordinate epithet, while
    // the ASCII-hybrid branch of the normalizer always discards the
    // subspecies.  The keys must therefore not be equal.
    let parsed = parse_name("Foo bar L. ssp. baz Author").unwrap();
    let derived = plant_name_to_species_name(&parsed);
    assert_eq!(derived.ssp, Some("baz".to_string()));
    let normalized = SpeciesName::new("Foo x bar baz".to_string()).unwrap();
    assert_ne!(derived, normalized);
}

#[test]
fn derived_key_agrees_with_plain_normalizer_path() {
    // Outside the hybrid branch the two construction paths agree.
    let parsed = parse_name("Foo bar L. ssp. baz Author").unwrap();
    let derived = plant_name_to_species_name(&parsed);
    let normalized = SpeciesName::new("Foo bar baz".to_string()).unwrap();
    assert_eq!(derived, normalized);
}
