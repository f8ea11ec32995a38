use chemquiz::{generate_quiz, Compound, QuizMode};
use rand::SeedableRng;

fn plain(
    iupac_name: &str,
    common_name: Option<&str>,
    local_name: Option<&str>,
    skeletal_formula: &str,
    molecular_formula: &str,
) -> Compound {
    Compound {
        iupac_name: iupac_name.to_string(),
        common_name: common_name.map(str::to_string),
        local_name: local_name.map(str::to_string),
        skeletal_formula: skeletal_formula.to_string(),
        molecular_formula: molecular_formula.to_string(),
        series_general_formula: None,
        functional_groups: Vec::new(),
        notes: None,
        smiles: None,
    }
}

fn fixture_compounds() -> Vec<Compound> {
    vec![
        plain("ethanol", Some("ethyl alcohol"), Some("エタノール"), "CH3-CH2-OH", "C2H6O"),
        plain("methanol", Some("methyl alcohol"), Some("メタノール"), "CH3OH", "CH4O"),
        plain("propanone", Some("acetone"), Some("アセトン"), "(CH3)2CO", "C3H6O"),
        plain("benzene", None, Some("ベンゼン"), "C6H6", "C6H6"),
    ]
}

#[test]
fn deterministic_generation_from_seed() {
    let compounds = fixture_compounds();
    let mut rng = rand::rngs::StdRng::seed_from_u64(99);

    let quiz = generate_quiz(&mut rng, &compounds, QuizMode::StructureToName, 4)
        .expect("quiz should be generated with provided data");

    assert_eq!(quiz.prompt, "C6H6 (C6H6)");
    assert_eq!(quiz.options.len(), 4);
    assert_eq!(quiz.options[quiz.correct_index], "benzene / ベンゼン");
}

#[test]
fn options_are_unique() {
    let compounds = fixture_compounds();
    let mut rng = rand::rngs::StdRng::seed_from_u64(120);

    let quiz = generate_quiz(&mut rng, &compounds, QuizMode::NameToStructure, 3)
        .expect("quiz should be generated with unique options");

    let mut seen = std::collections::HashSet::new();
    for option in &quiz.options {
        assert!(seen.insert(option));
    }
}

#[test]
fn prompt_matches_selected_option() {
    let compounds = fixture_compounds();
    let mut rng = rand::rngs::StdRng::seed_from_u64(5);

    let quiz = generate_quiz(&mut rng, &compounds, QuizMode::StructureToName, 4)
        .expect("quiz should generate");

    let matched = compounds
        .iter()
        .find(|compound| compound.display_structure() == quiz.prompt)
        .expect("prompt should match provided compounds");

    assert_eq!(quiz.options[quiz.correct_index], matched.display_name());
}
