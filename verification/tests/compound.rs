use chemquiz::{Compound, FunctionalGroup};

fn ethanol() -> Compound {
    Compound {
        iupac_name: "ethanol".to_string(),
        common_name: Some("ethyl alcohol".to_string()),
        local_name: Some("エタノール".to_string()),
        skeletal_formula: "CH3-CH2-OH".to_string(),
        molecular_formula: "C2H6O".to_string(),
        series_general_formula: None,
        functional_groups: Vec::new(),
        notes: None,
        smiles: Some("CCO".to_string()),
    }
}

fn methane_with(series: Option<&str>, notes: Option<&str>) -> Compound {
    Compound {
        iupac_name: "methane".to_string(),
        common_name: None,
        local_name: None,
        skeletal_formula: "CH4".to_string(),
        molecular_formula: "CH4".to_string(),
        series_general_formula: series.map(str::to_string),
        functional_groups: Vec::new(),
        notes: notes.map(str::to_string),
        smiles: Some("C".to_string()),
    }
}

#[test]
fn english_label_prefers_common_name() {
    let label = ethanol().english_label();
    assert_eq!(label, "ethanol (ethyl alcohol)");
}

#[test]
fn english_label_avoids_duplicate_common_name() {
    let compound = Compound {
        iupac_name: "benzene".to_string(),
        common_name: Some("benzene".to_string()),
        local_name: None,
        skeletal_formula: "C6H6".to_string(),
        molecular_formula: "C6H6".to_string(),
        series_general_formula: None,
        functional_groups: Vec::new(),
        notes: None,
        smiles: Some("c1ccccc1".to_string()),
    };

    assert_eq!(compound.english_label(), "benzene");
}

#[test]
fn display_name_prefers_all_available_labels() {
    let name = ethanol().display_name();
    assert_eq!(name, "ethanol (ethyl alcohol) / エタノール");
}

#[test]
fn display_name_skips_missing_fields() {
    let compound = Compound {
        iupac_name: "benzene".to_string(),
        common_name: None,
        local_name: Some("ベンゼン".to_string()),
        skeletal_formula: "C6H6".to_string(),
        molecular_formula: "C6H6".to_string(),
        series_general_formula: None,
        functional_groups: Vec::new(),
        notes: None,
        smiles: Some("c1ccccc1".to_string()),
    };

    let name = compound.display_name();
    assert_eq!(name, "benzene / ベンゼン");
}

#[test]
fn display_structure_combines_forms() {
    let ethanol = ethanol();
    let structure = ethanol.display_structure();
    assert_eq!(structure, "CH3-CH2-OH (C2H6O)");
}

#[test]
fn display_trait_includes_name_and_structure() {
    let compound = ethanol();
    let formatted = compound.summary();

    assert!(formatted.contains("ethanol"));
    assert!(formatted.contains("CH3-CH2-OH (C2H6O)"));
}

#[test]
fn summary_is_name_colon_structure() {
    assert_eq!(
        ethanol().summary(),
        "ethanol (ethyl alcohol) / エタノール: CH3-CH2-OH (C2H6O)"
    );
}

#[test]
fn display_name_without_any_extra_name_is_the_iupac_name() {
    let compound = methane_with(None, None);
    assert_eq!(compound.english_label(), "methane");
    assert_eq!(compound.display_name(), "methane");
    assert_eq!(compound.display_structure(), "CH4 (CH4)");
}

#[test]
fn display_strings_are_stable() {
    let compound = ethanol();
    assert_eq!(compound.display_name(), compound.display_name());
    assert_eq!(compound.display_structure(), compound.clone().display_structure());
    assert_eq!(compound.clone(), compound);
}

#[test]
fn detail_sections_include_all_metadata() {
    let compound = Compound {
        iupac_name: "ethanoic acid".to_string(),
        common_name: Some("acetic acid".to_string()),
        local_name: Some("酢酸".to_string()),
        skeletal_formula: "CH3COOH".to_string(),
        molecular_formula: "C2H4O2".to_string(),
        series_general_formula: Some("C_nH_{2n+2}O_2".to_string()),
        functional_groups: vec![
            FunctionalGroup {
                name_en: "Carboxyl".to_string(),
                name_ja: "カルボキシル基".to_string(),
                pattern: "-COOH".to_string(),
            },
            FunctionalGroup {
                name_en: "Hydroxyl".to_string(),
                name_ja: "ヒドロキシ基".to_string(),
                pattern: "-OH".to_string(),
            },
        ],
        notes: Some("Weak acid found in vinegar".to_string()),
        smiles: Some("CC(=O)O".to_string()),
    };

    let sections = compound.detail_sections();
    assert_eq!(sections.len(), 3);
    assert_eq!(sections[0].label, "Series formula");
    assert_eq!(sections[0].entries, vec!["C_nH_{2n+2}O_2".to_string()]);
    assert_eq!(sections[1].label, "Functional groups");
    assert_eq!(
        sections[1].entries,
        vec![
            "Carboxyl / カルボキシル基: -COOH".to_string(),
            "Hydroxyl / ヒドロキシ基: -OH".to_string(),
        ]
    );
    assert_eq!(sections[2].label, "Notes");
    assert_eq!(
        sections[2].entries,
        vec!["Weak acid found in vinegar".to_string()]
    );
}

#[test]
fn detail_sections_skip_empty_values() {
    let compound = Compound {
        iupac_name: "methane".to_string(),
        common_name: None,
        local_name: None,
        skeletal_formula: "CH4".to_string(),
        molecular_formula: "CH4".to_string(),
        series_general_formula: Some("   ".to_string()),
        functional_groups: Vec::new(),
        notes: Some("   ".to_string()),
        smiles: Some("C".to_string()),
    };

    let sections = compound.detail_sections();
    assert!(sections.is_empty());
}

#[test]
fn detail_sections_trim_surrounding_white_space() {
    let compound = methane_with(Some(" \t C_nH_{2n+2}\u{3000}\n"), Some("\u{a0}odourless gas  "));
    let sections = compound.detail_sections();
    assert_eq!(sections.len(), 2);
    assert_eq!(sections[0].label, "Series formula");
    assert_eq!(sections[0].entries, vec!["C_nH_{2n+2}".to_string()]);
    assert_eq!(sections[1].label, "Notes");
    assert_eq!(sections[1].entries, vec!["odourless gas".to_string()]);
}

#[test]
fn detail_sections_keep_inner_white_space() {
    let compound = methane_with(None, Some("  a  b  "));
    let sections = compound.detail_sections();
    assert_eq!(sections.len(), 1);
    assert_eq!(sections[0].entries, vec!["a  b".to_string()]);
}

#[test]
fn trim_matches_the_standard_library() {
    for text in ["", " ", "x", " x", "x ", "  x y  ", "\n\tx\r\n", "\u{2003}é\u{2003}", "日本語"] {
        assert_eq!(chemquiz::text::trim(text), text.trim());
    }
}

#[test]
fn join_puts_the_separator_between_neighbours() {
    let parts = vec!["a".to_string(), "b".to_string(), "c".to_string()];
    assert_eq!(chemquiz::text::join(&parts, " / "), "a / b / c");
    assert_eq!(chemquiz::text::join(&parts[..1], " / "), "a");
    assert_eq!(chemquiz::text::join(&parts[..0], " / "), "");
}

#[test]
fn functional_group_line_has_both_names_and_the_pattern() {
    let group = FunctionalGroup {
        name_en: "Hydroxyl".to_string(),
        name_ja: "ヒドロキシ基".to_string(),
        pattern: "-OH".to_string(),
    };
    assert_eq!(group.detail_line(), "Hydroxyl / ヒドロキシ基: -OH");
}
