use usda_plants::plant::hybrid;
use usda_plants::plant::is_hybrid;
use usda_plants::plant::modifier;
use usda_plants::plant::not_whitespace;
use usda_plants::plant::parse_author;
use usda_plants::plant::parse_name;
use usda_plants::plant::second_author;
use usda_plants::plant::sspvar;
use usda_plants::plant::NameRule;
use usda_plants::plant::ParseError;
use usda_plants::plant::PlantName;
use usda_plants::plant::SpeciesType;

#[test]
fn test_not_whitespace() {
    assert_eq!(not_whitespace("Quercus alba"), Some((" alba", "Quercus")));
    assert_eq!(not_whitespace("Quercus\talba"), Some(("\talba", "Quercus")));
    assert_eq!(not_whitespace(" alba"), None);
}

#[test]
fn test_is_hybrid() {
    assert_eq!(is_hybrid("×leana"), ("leana", "×"));
    assert_eq!(is_hybrid("alba"), ("alba", ""));
}

#[test]
fn test_hybrid() {
    assert_eq!(
        hybrid(" [alba × michauxii]"),
        Some(("", ("alba".to_string(), "michauxii".to_string())))
    );
    assert!(hybrid("Foo bar").is_none());
    assert!(hybrid(" []").is_none());
    assert!(hybrid(" [alba michauxii]").is_none());
    assert!(hybrid(" [alba x michauxii]").is_none());
}

#[test]
fn test_parse_author() {
    assert_eq!(parse_author("L."), ("", "L.".to_string()));
    assert_eq!(parse_author("L. [foo x bar]"), (" [foo x bar]", "L.".to_string()));
    assert_eq!(parse_author("L. var. foo"), (" var. foo", "L.".to_string()));
    assert_eq!(parse_author("L. ssp. foo"), (" ssp. foo", "L.".to_string()));
    assert_eq!(parse_author("L., orth. var."), (", orth. var.", "L.".to_string()));
    assert_eq!(parse_author("Foo bar"), ("", "Foo bar".to_string()));
    assert_eq!(parse_author("Foo bar var. baz"), (" var. baz", "Foo bar".to_string()));
    assert_eq!(parse_author("Foo bar ssp. baz"), (" ssp. baz", "Foo bar".to_string()));
    assert_eq!(parse_author("Foo bar, orth. var."), (", orth. var.", "Foo bar".to_string()));
}

#[test]
fn test_modifier() {
    assert_eq!(modifier(""), Some(("", "")));
    assert_eq!(modifier(", orth. var."), Some(("", ", orth. var.")));
    assert_eq!(modifier(" ssp. foo"), Some(("foo", " ssp. ")));
    assert_eq!(modifier(" var. foo"), Some(("foo", " var. ")));
    assert_eq!(
        modifier(" [alba x michauxii]"),
        Some((" [alba x michauxii]", " ["))
    );
}

#[test]
fn test_sspvar() {
    assert_eq!(sspvar("foo "), Some(("", "foo")));
    assert_eq!(sspvar("foo bar"), Some(("bar", "foo")));
}

#[test]
fn test_second_author() {
    assert_eq!(
        second_author("A.L. Pickens & M.C. Pickens"),
        ("", Some("A.L. Pickens & M.C. Pickens".to_string()))
    );
    assert_eq!(second_author(""), ("", None));
}

#[test]
fn test_parse_name() {
    assert_eq!(
        parse_name("Quercus alba L."),
        Ok(PlantName {
            genus: "Quercus".to_string(),
            specific: "alba".to_string(),
            author: Some("L.".to_string()),
            ..Default::default()
        })
    );

    assert_eq!(
        parse_name("Quercus alba L. var. subcaerulea A.L. Pickens & M.C. Pickens"),
        Ok(PlantName {
            genus: "Quercus".to_string(),
            specific: "alba".to_string(),
            author: Some("L.".to_string()),
            species_type: SpeciesType::Variety,
            sspvar: Some("subcaerulea".to_string()),
            second_author: Some("A.L. Pickens & M.C. Pickens".to_string()),
            ..Default::default()
        })
    );

    assert_eq!(
        parse_name("Ruellia caroliniensis (J.F. Gmel.) Steud. ssp. ciliosa (Pursh) R.W. Long"),
        Ok(PlantName {
            genus: "Ruellia".to_string(),
            specific: "caroliniensis".to_string(),
            species_type: SpeciesType::Subspecies,
            sspvar: Some("ciliosa".to_string()),
            hybrid: None,
            author: Some("(J.F. Gmel.) Steud.".to_string()),
            second_author: Some("(Pursh) R.W. Long".to_string()),
        })
    );

    assert_eq!(
        parse_name("Quercus ×beadlei Trel. ex Palmer [alba × michauxii]"),
        Ok(PlantName {
            genus: "Quercus".to_string(),
            specific: "beadlei".to_string(),
            species_type: SpeciesType::Hybrid,
            sspvar: None,
            hybrid: Some(("alba".to_string(), "michauxii".to_string())),
            author: Some("Trel. ex Palmer".to_string()),
            second_author: None,
        })
    );

    assert_eq!(
        parse_name("Acaena novae-zelandica Kirk, orth. var."),
        Ok(PlantName {
            genus: "Acaena".to_string(),
            specific: "novae-zelandica".to_string(),
            species_type: SpeciesType::OrthVar,
            sspvar: None,
            hybrid: None,
            author: Some("Kirk".to_string()),
            second_author: None,
        })
    );
}

#[test]
fn parse_name_rejects_malformed_input() {
    assert_eq!(
        parse_name(""),
        Err(ParseError::MalformedName {
            remainder: "".to_string(),
            rule: NameRule::Genus,
        })
    );
    assert_eq!(
        parse_name(" alba"),
        Err(ParseError::MalformedName {
            remainder: " alba".to_string(),
            rule: NameRule::Genus,
        })
    );
    assert_eq!(
        parse_name("Quercus"),
        Err(ParseError::MalformedName {
            remainder: "".to_string(),
            rule: NameRule::Separator,
        })
    );
    // A bare binomial has no separator after the specific epithet.
    assert_eq!(
        parse_name("Quercus alba"),
        Err(ParseError::MalformedName {
            remainder: "".to_string(),
            rule: NameRule::Separator,
        })
    );
    // A hybrid-marker run with nothing after it leaves no specific epithet.
    assert_eq!(
        parse_name("Quercus ×"),
        Err(ParseError::MalformedName {
            remainder: "".to_string(),
            rule: NameRule::Specific,
        })
    );
    // The subordinate epithet must be followed by whitespace.
    assert_eq!(
        parse_name("Quercus alba L. var. subcaerulea"),
        Err(ParseError::MalformedName {
            remainder: "subcaerulea".to_string(),
            rule: NameRule::Subordinate,
        })
    );
    // An ASCII letter x is not the hybrid marker inside a bracket pair.
    assert_eq!(
        parse_name("Quercus beadlei Trel. [alba x michauxii]"),
        Err(ParseError::MalformedHybridBracket {
            remainder: " [alba x michauxii]".to_string(),
        })
    );
}

#[test]
fn parse_name_hybrid_prefix_is_typographic_only() {
    // The multiplication-sign prefix on the specific epithet is stripped
    // and does not by itself make the name a hybrid.
    let n = parse_name("Quercus ×leana Nutt.").unwrap();
    assert_eq!(n.genus, "Quercus");
    assert_eq!(n.specific, "leana");
    assert_eq!(n.species_type, SpeciesType::Species);
    assert_eq!(n.hybrid, None);
    assert_eq!(n.author, Some("Nutt.".to_string()));
}

#[test]
fn parse_name_absorbs_unknown_status_suffixes() {
    // An unrecognized trailing annotation is not an error: it stays inside
    // the author citation of a plain species record.
    let n = parse_name("Carex magellanica Lam., nom. inval.").unwrap();
    assert_eq!(n.species_type, SpeciesType::Species);
    assert_eq!(n.author, Some("Lam., nom. inval.".to_string()));
    assert_eq!(n.second_author, None);
}

#[test]
fn parse_name_empty_author_is_present_but_empty() {
    // A marker right after the specific epithet leaves an empty primary
    // author citation, not an absent one.
    let n = parse_name("Quercus alba , orth. var.").unwrap();
    assert_eq!(n.species_type, SpeciesType::OrthVar);
    assert_eq!(n.author, Some("".to_string()));
}

#[test]
fn plant_species_name_joins_genus_and_specific() {
    let mut n = parse_name("Quercus alba L.").unwrap();
    assert_eq!(n.species_name(), "Quercus alba");
}
