use chemquiz::quiz::{assemble_quiz, unique_option_indices};
use chemquiz::{generate_quiz, Compound, QuizError, QuizMode};
use rand::SeedableRng;

fn compound(
    iupac_name: &str,
    common_name: Option<&str>,
    local_name: Option<&str>,
    skeletal_formula: &str,
    molecular_formula: &str,
    smiles: &str,
) -> Compound {
    Compound {
        iupac_name: iupac_name.to_string(),
        common_name: common_name.map(str::to_string),
        local_name: local_name.map(str::to_string),
        skeletal_formula: skeletal_formula.to_string(),
        molecular_formula: molecular_formula.to_string(),
        series_general_formula: None,
        functional_groups: Vec::new(),
        notes: None,
        smiles: Some(smiles.to_string()),
    }
}

fn sample_compounds() -> Vec<Compound> {
    vec![
        compound("ethanol", Some("ethyl alcohol"), Some("エタノール"), "CH3-CH2-OH", "C2H6O", "CCO"),
        compound(
            "propan-2-ol",
            Some("isopropyl alcohol"),
            Some("イソプロパノール"),
            "(CH3)2CHOH",
            "C3H8O",
            "CC(O)C",
        ),
        compound("ethanoic acid", Some("acetic acid"), Some("酢酸"), "CH3COOH", "C2H4O2", "CC(=O)O"),
        compound("benzene", None, Some("ベンゼン"), "C6H6", "C6H6", "c1ccccc1"),
    ]
}

fn duplicated_compounds() -> Vec<Compound> {
    vec![
        compound("ethanol", None, None, "CH3-CH2-OH", "C2H6O", "CCO"),
        compound("ethanol", None, None, "CH3-CH2-OH", "C2H6O", "CCO"),
        compound("propan-1-ol", None, None, "CH3-CH2-CH2-OH", "C3H8O", "CCCO"),
    ]
}

#[test]
fn generate_name_to_structure_quiz() {
    let compounds = sample_compounds();
    let mut rng = rand::rngs::StdRng::seed_from_u64(42);

    let quiz = generate_quiz(&mut rng, &compounds, QuizMode::NameToStructure, 4)
        .expect("quiz should generate");

    assert_eq!(quiz.mode, QuizMode::NameToStructure);
    assert_eq!(quiz.options.len(), 4);
    assert!(quiz.correct_index < quiz.options.len());

    let correct_compound = compounds
        .iter()
        .find(|compound| compound.display_name() == quiz.prompt)
        .expect("prompt should match a provided compound");

    assert_eq!(
        quiz.options[quiz.correct_index],
        correct_compound.display_structure()
    );
}

#[test]
fn generate_structure_to_name_quiz() {
    let compounds = sample_compounds();
    let mut rng = rand::rngs::StdRng::seed_from_u64(7);

    let quiz = generate_quiz(&mut rng, &compounds, QuizMode::StructureToName, 3)
        .expect("quiz should generate");

    assert_eq!(quiz.mode, QuizMode::StructureToName);
    assert_eq!(quiz.options.len(), 3);
    assert!(quiz.correct_index < quiz.options.len());

    let correct_compound = compounds
        .iter()
        .find(|compound| compound.display_structure() == quiz.prompt)
        .expect("prompt should correspond to a compound");

    assert_eq!(
        quiz.options[quiz.correct_index],
        correct_compound.display_name()
    );
}

#[test]
fn error_when_too_few_compounds() {
    let compounds = sample_compounds();
    let mut rng = rand::rngs::StdRng::seed_from_u64(1);

    let error = generate_quiz(&mut rng, &compounds[..2], QuizMode::NameToStructure, 3)
        .expect_err("not enough compounds");

    assert!(matches!(
        error,
        QuizError::NotEnoughCompounds {
            required: 3,
            available: 2
        }
    ));
}

#[test]
fn error_when_not_enough_unique_options() {
    let duplicated = duplicated_compounds();

    let mut rng = rand::rngs::StdRng::seed_from_u64(2);

    let error = generate_quiz(&mut rng, &duplicated, QuizMode::StructureToName, 3)
        .expect_err("insufficient unique options");

    assert!(matches!(
        error,
        QuizError::InsufficientUniqueOptions {
            required: 3,
            unique: 2
        }
    ));
}

#[test]
fn error_when_option_count_too_small() {
    let mut rng = rand::rngs::StdRng::seed_from_u64(3);
    let compounds = sample_compounds();

    let error = generate_quiz(&mut rng, &compounds, QuizMode::NameToStructure, 1)
        .expect_err("option count too small");

    assert_eq!(error, QuizError::OptionCountTooSmall);
}

#[test]
fn option_count_is_checked_before_anything_else() {
    let mut rng = rand::rngs::StdRng::seed_from_u64(3);
    for count in [0usize, 1] {
        for available in [0usize, 1, 4] {
            let compounds = sample_compounds();
            let error = generate_quiz(
                &mut rng,
                &compounds[..available],
                QuizMode::StructureToName,
                count,
            )
            .expect_err("option count too small");
            assert_eq!(error, QuizError::OptionCountTooSmall);
        }
    }
}

#[test]
fn too_few_compounds_is_reported_with_both_counts() {
    let mut rng = rand::rngs::StdRng::seed_from_u64(11);
    let compounds = sample_compounds();
    let error = generate_quiz(&mut rng, &compounds, QuizMode::NameToStructure, 5)
        .expect_err("not enough compounds");
    assert_eq!(
        error,
        QuizError::NotEnoughCompounds {
            required: 5,
            available: 4
        }
    );
    let error = generate_quiz(&mut rng, &compounds[..0], QuizMode::NameToStructure, 2)
        .expect_err("not enough compounds");
    assert_eq!(
        error,
        QuizError::NotEnoughCompounds {
            required: 2,
            available: 0
        }
    );
}

#[test]
fn colliding_labels_count_once() {
    let mut compounds = duplicated_compounds();
    // Same structure as ethanol under another name: one answer when the
    // options are structures, two when they are names.
    compounds.push(compound("ethyl alcohol", None, None, "CH3-CH2-OH", "C2H6O", "CCO"));
    let mut rng = rand::rngs::StdRng::seed_from_u64(5);
    let error = generate_quiz(&mut rng, &compounds, QuizMode::NameToStructure, 3)
        .expect_err("insufficient unique options");
    assert_eq!(
        error,
        QuizError::InsufficientUniqueOptions {
            required: 3,
            unique: 2
        }
    );
    let quiz = generate_quiz(&mut rng, &compounds, QuizMode::StructureToName, 3)
        .expect("three different names");
    assert_eq!(quiz.options.len(), 3);
}

#[test]
fn unique_indices_keep_first_occurrences_in_order() {
    let mut compounds = duplicated_compounds();
    compounds.push(compound("ethyl alcohol", None, None, "CH3-CH2-OH", "C2H6O", "CCO"));
    assert_eq!(
        unique_option_indices(&compounds, QuizMode::StructureToName),
        vec![0, 2, 3]
    );
    assert_eq!(
        unique_option_indices(&compounds, QuizMode::NameToStructure),
        vec![0, 2]
    );
    assert_eq!(
        unique_option_indices(&compounds[..0], QuizMode::NameToStructure),
        Vec::<usize>::new()
    );
}

#[test]
fn assembled_quiz_follows_the_arrangement() {
    let compounds = sample_compounds();
    let quiz = assemble_quiz(&compounds, QuizMode::StructureToName, &[2, 0, 3], 3);
    assert_eq!(quiz.mode, QuizMode::StructureToName);
    assert_eq!(quiz.prompt, "C6H6 (C6H6)");
    assert_eq!(
        quiz.options,
        vec![
            "ethanoic acid (acetic acid) / 酢酸".to_string(),
            "ethanol (ethyl alcohol) / エタノール".to_string(),
            "benzene / ベンゼン".to_string(),
        ]
    );
    assert_eq!(quiz.correct_index, 2);

    let quiz = assemble_quiz(&compounds, QuizMode::NameToStructure, &[1, 0], 1);
    assert_eq!(quiz.prompt, "propan-2-ol (isopropyl alcohol) / イソプロパノール");
    assert_eq!(
        quiz.options,
        vec!["(CH3)2CHOH (C3H8O)".to_string(), "CH3-CH2-OH (C2H6O)".to_string()]
    );
    assert_eq!(quiz.correct_index, 0);
}

#[test]
fn generated_quizzes_are_well_formed_for_many_seeds() {
    let compounds = sample_compounds();
    for seed in 0..200u64 {
        for mode in [QuizMode::NameToStructure, QuizMode::StructureToName] {
            for count in 2..=4usize {
                let mut rng = rand::rngs::StdRng::seed_from_u64(seed);
                let quiz = generate_quiz(&mut rng, &compounds, mode, count).expect("quiz");
                assert_eq!(quiz.mode, mode);
                assert_eq!(quiz.options.len(), count);
                assert!(quiz.correct_index < quiz.options.len());
                for i in 0..count {
                    for j in 0..i {
                        assert_ne!(quiz.options[i], quiz.options[j]);
                    }
                }
                let answer = compounds
                    .iter()
                    .find(|compound| match mode {
                        QuizMode::NameToStructure => compound.display_name() == quiz.prompt,
                        QuizMode::StructureToName => compound.display_structure() == quiz.prompt,
                    })
                    .expect("prompt belongs to a compound");
                let expected = match mode {
                    QuizMode::NameToStructure => answer.display_structure(),
                    QuizMode::StructureToName => answer.display_name(),
                };
                assert_eq!(quiz.options[quiz.correct_index], expected);
            }
        }
    }
}

#[test]
fn same_seed_gives_the_same_quiz() {
    let compounds = sample_compounds();
    for seed in [0u64, 1, 99, 12345] {
        let mut first = rand::rngs::StdRng::seed_from_u64(seed);
        let mut second = rand::rngs::StdRng::seed_from_u64(seed);
        let a = generate_quiz(&mut first, &compounds, QuizMode::StructureToName, 3);
        let b = generate_quiz(&mut second, &compounds, QuizMode::StructureToName, 3);
        assert_eq!(a, b);
    }
}

#[test]
fn the_correct_answer_moves_with_the_seed() {
    let compounds = sample_compounds();
    let mut prompts = std::collections::BTreeSet::new();
    let mut positions = std::collections::BTreeSet::new();
    for seed in 0..100u64 {
        let mut rng = rand::rngs::StdRng::seed_from_u64(seed);
        let quiz = generate_quiz(&mut rng, &compounds, QuizMode::StructureToName, 4).expect("quiz");
        prompts.insert(quiz.prompt);
        positions.insert(quiz.correct_index);
    }
    assert_eq!(prompts.len(), 4);
    assert_eq!(positions.len(), 4);
}

#[test]
fn a_copy_of_a_quiz_is_equal() {
    let compounds = sample_compounds();
    let quiz = assemble_quiz(&compounds, QuizMode::NameToStructure, &[3, 1], 1);
    assert_eq!(quiz.clone(), quiz);
}
