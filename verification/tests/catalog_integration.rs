use chemquiz::{demo_catalog, generate_quiz, CatalogError, QuizMode};
use rand::SeedableRng;

#[test]
fn category_errors_surface() {
    let catalog = demo_catalog();
    let error = catalog
        .compounds_for(&vec!["Organic".to_string(), "Nonexistent".to_string()])
        .expect_err("missing subcategory should return error");

    assert_eq!(
        error,
        CatalogError::CategoryNotFound {
            path: "Organic / Nonexistent".to_string(),
        }
    );
}

#[test]
fn quiz_from_a_category_of_the_demo_catalog() {
    let catalog = demo_catalog();
    let compounds = catalog
        .compounds_for(&vec![
            "Organic".to_string(),
            "Aliphatic_compounds".to_string(),
            "Alcohols_and_ethers".to_string(),
        ])
        .expect("category should exist");
    let mut rng = rand::rngs::StdRng::seed_from_u64(77);

    let quiz = generate_quiz(&mut rng, &compounds, QuizMode::StructureToName, 2)
        .expect("category should have enough variety");

    assert_eq!(quiz.options.len(), 2);
}
