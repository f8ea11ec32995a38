use chemquiz::{CatalogLoadError, CatalogWalk, Compound, WalkAction, WalkEvent};

fn compound(iupac_name: &str, common: &str, local: &str, formula: &str, smiles: &str) -> Compound {
    Compound {
        iupac_name: iupac_name.to_string(),
        common_name: Some(common.to_string()),
        local_name: Some(local.to_string()),
        skeletal_formula: formula.to_string(),
        molecular_formula: formula.to_string(),
        series_general_formula: None,
        functional_groups: Vec::new(),
        notes: None,
        smiles: Some(smiles.to_string()),
    }
}

fn directory(name: &str) -> WalkEvent {
    WalkEvent::Directory { name: Some(name.to_string()) }
}

fn file(name: &str) -> WalkEvent {
    WalkEvent::File {
        name: Some(name.to_string()),
        extension: name.rsplit_once('.').map(|(_, extension)| extension.to_string()),
    }
}

fn is(action: WalkAction, wanted: &str) -> bool {
    format!("{:?}", action) == wanted
}

#[test]
fn loads_entries_from_directory_tree() {
    let mut walk = CatalogWalk::begin();
    assert!(is(walk.step(directory("Organic")), "Descend"));
    assert!(is(walk.step(directory("Alcohols")), "Descend"));
    assert!(is(walk.step(file("compounds.json")), "Load"));
    let ethanol = compound("ethanol", "ethyl alcohol", "エタノール", "C2H6O", "CCO");
    assert!(is(walk.step(WalkEvent::Compounds { compounds: vec![ethanol] }), "ReadNext"));
    assert!(is(walk.step(WalkEvent::EndOfDirectory), "ReadNext"));
    assert!(is(walk.step(WalkEvent::EndOfDirectory), "ReadNext"));
    assert!(is(walk.step(directory("Inorganic")), "Descend"));
    assert!(is(walk.step(directory("Salts")), "Descend"));
    assert!(is(walk.step(file("compounds.json")), "Load"));
    let salt = compound("sodium chloride", "table salt", "塩化ナトリウム", "NaCl", "Cl[Na]");
    assert!(is(walk.step(WalkEvent::Compounds { compounds: vec![salt] }), "ReadNext"));
    assert!(is(walk.step(WalkEvent::EndOfDirectory), "ReadNext"));
    assert!(is(walk.step(WalkEvent::EndOfDirectory), "ReadNext"));
    assert!(!walk.is_over());
    assert!(is(walk.step(WalkEvent::EndOfDirectory), "Done"));
    assert!(walk.is_over());

    let catalog = walk.into_catalog();
    let paths = catalog.available_paths();

    assert!(paths.contains(&vec!["Organic".to_string(), "Alcohols".to_string()]));
    assert!(paths.contains(&vec!["Inorganic".to_string(), "Salts".to_string()]));
    assert_eq!(catalog.all_compounds().len(), 2);
}

#[test]
fn errors_when_category_path_missing() {
    let mut walk = CatalogWalk::begin();
    let action = walk.step(file("compounds.json"));
    match action {
        WalkAction::Fail(error) => assert_eq!(error, CatalogLoadError::EmptyCategoryPath),
        other => panic!("expected a failure, got {:?}", other),
    }
    assert!(walk.is_over());
}

#[test]
fn index_file_at_the_root_is_passed_over() {
    let mut walk = CatalogWalk::begin();
    assert!(is(walk.step(file("index.json")), "ReadNext"));
    assert!(is(walk.step(file("README.md")), "ReadNext"));
    assert!(is(walk.step(WalkEvent::File { name: None, extension: None }), "ReadNext"));
    assert!(is(walk.step(file("json")), "ReadNext"));
    assert!(!walk.is_over());
    assert!(is(walk.step(WalkEvent::EndOfDirectory), "Done"));
    assert!(walk.into_catalog().all_compounds().is_empty());
}

#[test]
fn index_file_below_the_root_is_passed_over_too() {
    let mut walk = CatalogWalk::begin();
    assert!(is(walk.step(directory("Organic")), "Descend"));
    assert!(is(walk.step(file("index.json")), "ReadNext"));
    assert!(is(walk.step(file("notes.txt")), "ReadNext"));
    assert!(is(walk.step(file("data.JSON")), "ReadNext"));
    assert!(is(walk.step(file("Index.json")), "Load"));
    assert!(is(walk.step(file("index.json.json")), "Load"));
}

#[test]
fn unnamed_file_with_data_extension_at_the_root_is_refused() {
    let mut walk = CatalogWalk::begin();
    let action =
        walk.step(WalkEvent::File { name: None, extension: Some("json".to_string()) });
    assert!(is(action, "Fail(EmptyCategoryPath)"));
}

#[test]
fn compounds_reported_at_the_root_are_refused() {
    let mut walk = CatalogWalk::begin();
    let methane = compound("methane", "marsh gas", "メタン", "CH4", "C");
    let action = walk.step(WalkEvent::Compounds { compounds: vec![methane] });
    assert!(is(action, "Fail(EmptyCategoryPath)"));
    assert!(walk.is_over());
    assert!(walk.into_catalog().all_compounds().is_empty());
}

#[test]
fn a_directory_without_a_name_adds_no_label() {
    let mut walk = CatalogWalk::begin();
    assert!(is(walk.step(directory("Organic")), "Descend"));
    assert!(is(walk.step(WalkEvent::Directory { name: None }), "Descend"));
    let methane = compound("methane", "marsh gas", "メタン", "CH4", "C");
    let ethane = compound("ethane", "ethane", "エタン", "C2H6", "CC");
    assert!(is(walk.step(WalkEvent::Compounds { compounds: vec![methane, ethane] }), "ReadNext"));
    assert!(is(walk.step(WalkEvent::EndOfDirectory), "ReadNext"));
    assert!(is(walk.step(directory("Alkanes")), "Descend"));
    let propane = compound("propane", "propane", "プロパン", "C3H8", "CCC");
    assert!(is(walk.step(WalkEvent::Compounds { compounds: vec![propane] }), "ReadNext"));
    let catalog = walk.into_catalog();
    assert_eq!(
        catalog.available_paths(),
        vec![
            vec!["Organic".to_string()],
            vec!["Organic".to_string(), "Alkanes".to_string()],
        ]
    );
    let names: Vec<String> = catalog.all_compounds().into_iter().map(|c| c.iupac_name).collect();
    assert_eq!(names, vec!["methane".to_string(), "ethane".to_string(), "propane".to_string()]);
    let under = catalog
        .compounds_for(&["Organic".to_string(), "Alkanes".to_string()])
        .expect("filed there");
    assert_eq!(under.len(), 1);
}

#[test]
fn failures_end_the_walk_and_carry_path_and_cause() {
    let mut walk = CatalogWalk::begin();
    assert!(is(walk.step(directory("Organic")), "Descend"));
    let action = walk.step(WalkEvent::ReadFailed {
        path: "catalog/Organic".to_string(),
        cause: "permission denied".to_string(),
    });
    match action {
        WalkAction::Fail(CatalogLoadError::ReadError { path, source }) => {
            assert_eq!(path, "catalog/Organic");
            assert_eq!(source, "permission denied");
        }
        other => panic!("expected a read failure, got {:?}", other),
    }
    assert!(walk.is_over());
    assert!(is(walk.step(file("compounds.json")), "Done"));

    let mut walk = CatalogWalk::begin();
    assert!(is(walk.step(directory("Organic")), "Descend"));
    let action = walk.step(WalkEvent::ParseFailed {
        path: "catalog/Organic/compounds.json".to_string(),
        cause: "expected value at line 1".to_string(),
    });
    match action {
        WalkAction::Fail(CatalogLoadError::ParseError { path, source }) => {
            assert_eq!(path, "catalog/Organic/compounds.json");
            assert_eq!(source, "expected value at line 1");
        }
        other => panic!("expected a parse failure, got {:?}", other),
    }
    assert!(walk.is_over());
}

#[test]
fn load_errors_are_compared_by_kind_and_path() {
    let read = |path: &str, source: &str| CatalogLoadError::ReadError {
        path: path.to_string(),
        source: source.to_string(),
    };
    let parse = |path: &str, source: &str| CatalogLoadError::ParseError {
        path: path.to_string(),
        source: source.to_string(),
    };
    assert_eq!(CatalogLoadError::EmptyCategoryPath, CatalogLoadError::EmptyCategoryPath);
    assert_eq!(read("a", "x"), read("a", "y"));
    assert_ne!(read("a", "x"), read("b", "x"));
    assert_eq!(parse("a", "x"), parse("a", "y"));
    assert_ne!(parse("a", "x"), parse("b", "x"));
    assert_ne!(read("a", "x"), parse("a", "x"));
    assert_ne!(read("a", "x"), CatalogLoadError::EmptyCategoryPath);
    assert_ne!(CatalogLoadError::EmptyCategoryPath, parse("a", "x"));
}
