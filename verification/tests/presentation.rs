use chemquiz::presentation::{
    compound_for_prompt, find_by_name, find_by_structure, format_path, hint_from_compound,
    layout_for_quiz, question_position, same_leaf, toggle_selection, FeedbackKind, FeedbackState,
    LayoutKind, OptionContent, PromptContent, Scene, SessionScore,
};
use chemquiz::{CatalogLeaf, Compound, FunctionalGroup, QuizItem, QuizMode};

fn leaf(path: &[&str], file: &str) -> CatalogLeaf {
    CatalogLeaf {
        path: path.iter().map(|label| label.to_string()).collect(),
        file: file.to_string(),
    }
}

fn bare(iupac_name: &str, common_name: Option<&str>, skeletal: &str, molecular: &str) -> Compound {
    Compound {
        iupac_name: iupac_name.to_string(),
        common_name: common_name.map(str::to_string),
        local_name: Some("名".to_string()),
        skeletal_formula: skeletal.to_string(),
        molecular_formula: molecular.to_string(),
        series_general_formula: None,
        functional_groups: Vec::new(),
        notes: None,
        smiles: None,
    }
}

fn dataset() -> Vec<Compound> {
    vec![
        bare("ethanol", Some("ethyl alcohol"), "CH3-CH2-OH", "C2H6O"),
        bare("benzene", None, "C6H6", "C6H6"),
        bare("benzene", Some("benzol"), "C6H6", "C6H6"),
        bare("benzene", None, "Ph-H", "C6H6"),
    ]
}

fn group(name_en: &str, pattern: &str) -> FunctionalGroup {
    FunctionalGroup {
        name_en: name_en.to_string(),
        name_ja: "基".to_string(),
        pattern: pattern.to_string(),
    }
}

#[test]
fn format_path_joins_or_says_nothing_is_selected() {
    assert_eq!(format_path(&[]), "Not selected");
    assert_eq!(format_path(&["Organic".to_string()]), "Organic");
    assert_eq!(
        format_path(&["Organic".to_string(), "Alcohols".to_string()]),
        "Organic / Alcohols"
    );
}

#[test]
fn find_by_name_goes_by_the_english_label_and_takes_the_first() {
    let data = dataset();
    assert_eq!(find_by_name(&data, "ethanol (ethyl alcohol)"), Some(data[0].clone()));
    assert_eq!(find_by_name(&data, "benzene"), Some(data[1].clone()));
    assert_eq!(find_by_name(&data, "benzene (benzol)"), Some(data[2].clone()));
    assert_eq!(find_by_name(&data, "ethanol"), None);
    assert_eq!(find_by_name(&data, "benzene / 名"), None);
    assert_eq!(find_by_name(&data[..0], "benzene"), None);
}

#[test]
fn find_by_structure_takes_the_first_with_that_structure() {
    let data = dataset();
    assert_eq!(find_by_structure(&data, "C6H6 (C6H6)"), Some(data[1].clone()));
    assert_eq!(find_by_structure(&data, "Ph-H (C6H6)"), Some(data[3].clone()));
    assert_eq!(find_by_structure(&data, "C6H6"), None);
}

#[test]
fn compound_for_prompt_looks_up_by_mode() {
    let data = dataset();
    let quiz = QuizItem {
        mode: QuizMode::StructureToName,
        prompt: "Ph-H (C6H6)".to_string(),
        options: Vec::new(),
        correct_index: 0,
    };
    assert_eq!(compound_for_prompt(&data, &quiz), Some(data[3].clone()));
    let quiz = QuizItem { mode: QuizMode::NameToStructure, ..quiz };
    assert_eq!(compound_for_prompt(&data, &quiz), None);
    let quiz = QuizItem { prompt: "benzene (benzol)".to_string(), ..quiz };
    assert_eq!(compound_for_prompt(&data, &quiz), Some(data[2].clone()));
}

#[test]
fn hint_prefers_series_then_groups_then_notes_then_formula() {
    let mut compound = bare("ethanoic acid", None, "CH3COOH", "C2H4O2");
    assert_eq!(hint_from_compound(&compound), Some("Molecular formula: C2H4O2".to_string()));
    compound.notes = Some("Weak acid".to_string());
    assert_eq!(hint_from_compound(&compound), Some("Weak acid".to_string()));
    compound.functional_groups = vec![group("Carboxyl", "-COOH"), group("Hydroxyl", "-OH")];
    assert_eq!(
        hint_from_compound(&compound),
        Some("Functional groups: Carboxyl (-COOH), Hydroxyl (-OH)".to_string())
    );
    compound.functional_groups.truncate(1);
    assert_eq!(
        hint_from_compound(&compound),
        Some("Functional groups: Carboxyl (-COOH)".to_string())
    );
    compound.series_general_formula = Some("C_nH_{2n}O_2".to_string());
    assert_eq!(hint_from_compound(&compound), Some("Series formula: C_nH_{2n}O_2".to_string()));
}

#[test]
fn hint_is_absent_without_anything_to_show() {
    let mut compound = bare("unknown", None, "?", "");
    assert_eq!(hint_from_compound(&compound), None);
    compound.notes = Some(String::new());
    assert_eq!(hint_from_compound(&compound), Some(String::new()));
}

#[test]
fn layout_follows_the_mode() {
    let quiz = QuizItem {
        mode: QuizMode::NameToStructure,
        prompt: String::new(),
        options: Vec::new(),
        correct_index: 0,
    };
    let layout = layout_for_quiz(&quiz);
    assert_eq!(layout.prompt, PromptContent::Name);
    assert_eq!(layout.options, [OptionContent::Structure; 4]);
    assert_eq!(layout.layout_kind, LayoutKind::StandardVertical);
    let quiz = QuizItem { mode: QuizMode::StructureToName, ..quiz };
    let layout = layout_for_quiz(&quiz);
    assert_eq!(layout.prompt, PromptContent::Structure);
    assert_eq!(layout.options, [OptionContent::Name; 4]);
    assert_eq!(layout.layout_kind, LayoutKind::StandardVertical);
}

#[test]
fn feedback_carries_message_and_tone() {
    let state = FeedbackState::neutral("Pick a dataset".to_string());
    assert_eq!(state.message, "Pick a dataset");
    assert_eq!(state.kind, FeedbackKind::Neutral);
    assert_eq!(FeedbackState::correct("Yes".to_string()).kind, FeedbackKind::Correct);
    assert_eq!(FeedbackState::wrong("No".to_string()).kind, FeedbackKind::Wrong);
    assert_eq!(FeedbackState::wrong("No".to_string()).message, "No");
}

#[test]
fn score_counts_answers() {
    let score = SessionScore::new();
    assert_eq!(score, SessionScore::default());
    assert_eq!(score, SessionScore { total: 0, correct: 0 });
    let score = score.record(true).record(false).record(true);
    assert_eq!(score, SessionScore { total: 3, correct: 2 });
    assert_eq!(score.incorrect(), 1);
    assert_eq!(SessionScore { total: 1, correct: 5 }.incorrect(), 0);
}

#[test]
fn leaves_are_the_same_by_path_and_file() {
    assert!(same_leaf(&leaf(&["A", "B"], "b.json"), &leaf(&["A", "B"], "b.json")));
    assert!(!same_leaf(&leaf(&["A", "B"], "b.json"), &leaf(&["A", "B"], "c.json")));
    assert!(!same_leaf(&leaf(&["A", "B"], "b.json"), &leaf(&["A"], "b.json")));
    assert!(!same_leaf(&leaf(&["A", "B"], "b.json"), &leaf(&["A", "C"], "b.json")));
    assert!(same_leaf(&leaf(&[], ""), &leaf(&[], "")));
}

#[test]
fn a_click_toggles_the_leaf_in_the_selection() {
    let mut selection = Vec::new();
    toggle_selection(&mut selection, leaf(&["A"], "a.json"));
    toggle_selection(&mut selection, leaf(&["B"], "b.json"));
    toggle_selection(&mut selection, leaf(&["C"], "c.json"));
    assert_eq!(
        selection,
        vec![leaf(&["A"], "a.json"), leaf(&["B"], "b.json"), leaf(&["C"], "c.json")]
    );
    toggle_selection(&mut selection, leaf(&["B"], "b.json"));
    assert_eq!(selection, vec![leaf(&["A"], "a.json"), leaf(&["C"], "c.json")]);
    toggle_selection(&mut selection, leaf(&["B"], "b.json"));
    assert_eq!(
        selection,
        vec![leaf(&["A"], "a.json"), leaf(&["C"], "c.json"), leaf(&["B"], "b.json")]
    );
    let mut doubled = vec![leaf(&["A"], "a.json"), leaf(&["B"], "b.json"), leaf(&["A"], "a.json")];
    toggle_selection(&mut doubled, leaf(&["A"], "a.json"));
    assert_eq!(doubled, vec![leaf(&["B"], "b.json"), leaf(&["A"], "a.json")]);
}

#[test]
fn question_position_counts_the_open_question() {
    assert_eq!(question_position(Scene::Menu, 0, false), 0);
    assert_eq!(question_position(Scene::Menu, 7, true), 0);
    assert_eq!(question_position(Scene::Game, 0, false), 1);
    assert_eq!(question_position(Scene::Game, 3, false), 4);
    assert_eq!(question_position(Scene::Game, 3, true), 3);
}
