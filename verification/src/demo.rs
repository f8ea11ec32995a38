//! A small built-in dataset, for demonstrations and for trying the engine
//! without any data files.

use crate::catalog::{Catalog, CatalogEntry, CatalogEntryView};
use crate::compound::{Compound, CompoundView, FunctionalGroup, FunctionalGroupView};
use crate::views::lemma_deep_view_push;
use vstd::prelude::*;

verus! {

/// How many options a demonstration question offers.
pub const DEMO_OPTION_COUNT: usize = 4;

/// A compound with names, formulas and structure notation, and no further
/// metadata.
pub open spec fn plain_compound(
    iupac_name: Seq<char>,
    common_name: Option<Seq<char>>,
    local_name: Option<Seq<char>>,
    skeletal_formula: Seq<char>,
    molecular_formula: Seq<char>,
    smiles: Option<Seq<char>>,
) -> CompoundView {
    CompoundView {
        iupac_name: iupac_name,
        common_name: common_name,
        local_name: local_name,
        skeletal_formula: skeletal_formula,
        molecular_formula: molecular_formula,
        series_general_formula: None,
        functional_groups: Seq::empty(),
        notes: None,
        smiles: smiles,
    }
}

/// A plain compound filed under `categories`.
pub open spec fn filed_compound(
    iupac_name: Seq<char>,
    common_name: Option<Seq<char>>,
    local_name: Option<Seq<char>>,
    skeletal_formula: Seq<char>,
    molecular_formula: Seq<char>,
    smiles: Option<Seq<char>>,
    categories: Seq<Seq<char>>,
) -> CatalogEntryView {
    CatalogEntryView {
        compound: plain_compound(
            iupac_name,
            common_name,
            local_name,
            skeletal_formula,
            molecular_formula,
            smiles,
        ),
        categories: categories,
    }
}

/// The demonstration dataset.
pub open spec fn demo_table() -> Seq<CatalogEntryView> {
    seq![
        filed_compound(
            "methanol"@,
            Some("methyl alcohol"@),
            Some("メタノール"@),
            "CH3OH"@,
            "CH4O"@,
            Some("CO"@),
            seq!["Organic"@, "Aliphatic_compounds"@, "Alcohols_and_ethers"@, "Primary_alcohols"@],
        ),
        filed_compound(
            "ethanol"@,
            Some("ethyl alcohol"@),
            Some("エタノール"@),
            "CH3-CH2-OH"@,
            "C2H6O"@,
            Some("CCO"@),
            seq!["Organic"@, "Aliphatic_compounds"@, "Alcohols_and_ethers"@, "Primary_alcohols"@],
        ),
        filed_compound(
            "propan-2-ol"@,
            Some("isopropyl alcohol"@),
            Some("イソプロパノール"@),
            "(CH3)2CHOH"@,
            "C3H8O"@,
            Some("CC(O)C"@),
            seq!["Organic"@, "Aliphatic_compounds"@, "Alcohols_and_ethers"@, "Secondary_alcohols"@],
        ),
        filed_compound(
            "ethanoic acid"@,
            Some("acetic acid"@),
            Some("酢酸"@),
            "CH3COOH"@,
            "C2H4O2"@,
            Some("CC(=O)O"@),
            seq!["Organic"@, "Aliphatic_compounds"@, "Carboxylic_acids_and_esters"@, "Carboxylic_acids"@],
        ),
        filed_compound(
            "propanoic acid"@,
            Some("propionic acid"@),
            Some("プロピオン酸"@),
            "CH3-CH2-COOH"@,
            "C3H6O2"@,
            Some("CCC(=O)O"@),
            seq!["Organic"@, "Aliphatic_compounds"@, "Carboxylic_acids_and_esters"@, "Carboxylic_acids"@],
        ),
        filed_compound(
            "benzene"@,
            None,
            Some("ベンゼン"@),
            "C6H6"@,
            "C6H6"@,
            Some("c1ccccc1"@),
            seq!["Organic"@, "Aromatic_compounds"@, "Aromatic_hydrocarbons"@],
        ),
        filed_compound(
            "methylbenzene"@,
            Some("toluene"@),
            Some("トルエン"@),
            "C6H5-CH3"@,
            "C7H8"@,
            Some("Cc1ccccc1"@),
            seq!["Organic"@, "Aromatic_compounds"@, "Aromatic_hydrocarbons"@],
        ),
        filed_compound(
            "ethyne"@,
            Some("acetylene"@),
            Some("アセチレン"@),
            "HC≡CH"@,
            "C2H2"@,
            Some("C#C"@),
            seq!["Organic"@, "Aliphatic_compounds"@, "Hydrocarbons"@, "Alkynes"@],
        ),
        filed_compound(
            "but-2-yne"@,
            Some("dimethylacetylene"@),
            Some("2-ブチン"@),
            "CH3-C≡C-CH3"@,
            "C4H6"@,
            Some("CC#CC"@),
            seq!["Organic"@, "Aliphatic_compounds"@, "Hydrocarbons"@, "Alkynes"@],
        ),
        filed_compound(
            "2-methylpropane"@,
            Some("isobutane"@),
            Some("イソブタン"@),
            "(CH3)2CH-CH3"@,
            "C4H10"@,
            Some("CC(C)C"@),
            seq!["Organic"@, "Aliphatic_compounds"@, "Hydrocarbons"@, "Alkanes"@],
        ),
        filed_compound(
            "hexane"@,
            None,
            Some("ヘキサン"@),
            "CH3-(CH2)4-CH3"@,
            "C6H14"@,
            Some("CCCCCC"@),
            seq!["Organic"@, "Aliphatic_compounds"@, "Hydrocarbons"@, "Alkanes"@],
        ),
        filed_compound(
            "propane-1,2,3-triol"@,
            Some("glycerol"@),
            Some("グリセリン"@),
            "HO-CH2-CH(OH)-CH2-OH"@,
            "C3H8O3"@,
            Some("OCC(O)CO"@),
            seq!["Organic"@, "Aliphatic_compounds"@, "Alcohols_and_ethers"@, "Polyols"@],
        ),
        filed_compound(
            "sodium chloride"@,
            Some("table salt"@),
            Some("塩化ナトリウム"@),
            "NaCl"@,
            "NaCl"@,
            Some("Cl[Na]"@),
            seq!["Inorganic"@, "Salts"@, "Halides"@],
        ),
        filed_compound(
            "calcium carbonate"@,
            Some("calcite"@),
            Some("炭酸カルシウム"@),
            "CaCO3"@,
            "CaCO3"@,
            Some("[Ca+2].[O-]C(=O)[O-]"@),
            seq!["Inorganic"@, "Salts"@, "Carbonates"@],
        ),
    ]
}

/// An optional piece of text as an owned string.
fn owned(text: Option<&str>) -> (copy: Option<String>)
    ensures
        copy.deep_view() == (match text {
            Some(inner) => Some(inner@),
            None => None,
        }),
{
    match text {
        Some(inner) => Some(String::from_str(inner)),
        None => None,
    }
}

/// Builds a compound with names, formulas and structure notation, and no
/// further metadata.
pub fn build_compound(
    iupac_name: &str,
    common_name: Option<&str>,
    local_name: Option<&str>,
    skeletal_formula: &str,
    molecular_formula: &str,
    smiles: Option<&str>,
) -> (compound: Compound)
    ensures
        compound@ == plain_compound(
            iupac_name@,
            match common_name {
                Some(inner) => Some(inner@),
                None => None,
            },
            match local_name {
                Some(inner) => Some(inner@),
                None => None,
            },
            skeletal_formula@,
            molecular_formula@,
            match smiles {
                Some(inner) => Some(inner@),
                None => None,
            },
        ),
{
    let functional_groups: Vec<FunctionalGroup> = Vec::new();
    assert(functional_groups.deep_view() =~= Seq::<FunctionalGroupView>::empty());
    Compound {
        iupac_name: String::from_str(iupac_name),
        common_name: owned(common_name),
        local_name: owned(local_name),
        skeletal_formula: String::from_str(skeletal_formula),
        molecular_formula: String::from_str(molecular_formula),
        series_general_formula: None,
        functional_groups: functional_groups,
        notes: None,
        smiles: owned(smiles),
    }
}

/// A category path of three labels.
fn path_of_three(first: &str, second: &str, third: &str) -> (path: Vec<String>)
    ensures
        path.deep_view() == seq![first@, second@, third@],
{
    let mut path: Vec<String> = Vec::new();
    path.push(String::from_str(first));
    path.push(String::from_str(second));
    path.push(String::from_str(third));
    assert(path.deep_view() =~= seq![first@, second@, third@]);
    path
}

/// A category path of four labels.
fn path_of_four(first: &str, second: &str, third: &str, fourth: &str) -> (path: Vec<String>)
    ensures
        path.deep_view() == seq![first@, second@, third@, fourth@],
{
    let mut path: Vec<String> = Vec::new();
    path.push(String::from_str(first));
    path.push(String::from_str(second));
    path.push(String::from_str(third));
    path.push(String::from_str(fourth));
    assert(path.deep_view() =~= seq![first@, second@, third@, fourth@]);
    path
}

/// Appends one entry to the dataset under construction.
fn add_entry(entries: &mut Vec<CatalogEntry>, compound: Compound, categories: Vec<String>)
    ensures
        final(entries).deep_view() == old(entries).deep_view().push(
            CatalogEntryView { compound: compound@, categories: categories.deep_view() },
        ),
{
    let ghost shorter = *entries;
    let entry = CatalogEntry { compound, categories };
    entries.push(entry);
    proof {
        lemma_deep_view_push(shorter, *entries, entry);
    }
}

/// The entries of the demonstration dataset.
pub fn demo_entries() -> (entries: Vec<CatalogEntry>)
    ensures
        entries.deep_view() == demo_table(),
{
    let mut entries: Vec<CatalogEntry> = Vec::new();
    assert(entries.deep_view() =~= Seq::<CatalogEntryView>::empty());
    add_entry(
        &mut entries,
        build_compound(
            "methanol",
            Some("methyl alcohol"),
            Some("メタノール"),
            "CH3OH",
            "CH4O",
            Some("CO"),
        ),
        path_of_four("Organic", "Aliphatic_compounds", "Alcohols_and_ethers", "Primary_alcohols"),
    );
    add_entry(
        &mut entries,
        build_compound(
            "ethanol",
            Some("ethyl alcohol"),
            Some("エタノール"),
            "CH3-CH2-OH",
            "C2H6O",
            Some("CCO"),
        ),
        path_of_four("Organic", "Aliphatic_compounds", "Alcohols_and_ethers", "Primary_alcohols"),
    );
    add_entry(
        &mut entries,
        build_compound(
            "propan-2-ol",
            Some("isopropyl alcohol"),
            Some("イソプロパノール"),
            "(CH3)2CHOH",
            "C3H8O",
            Some("CC(O)C"),
        ),
        path_of_four("Organic", "Aliphatic_compounds", "Alcohols_and_ethers", "Secondary_alcohols"),
    );
    add_entry(
        &mut entries,
        build_compound(
            "ethanoic acid",
            Some("acetic acid"),
            Some("酢酸"),
            "CH3COOH",
            "C2H4O2",
            Some("CC(=O)O"),
        ),
        path_of_four("Organic", "Aliphatic_compounds", "Carboxylic_acids_and_esters", "Carboxylic_acids"),
    );
    add_entry(
        &mut entries,
        build_compound(
            "propanoic acid",
            Some("propionic acid"),
            Some("プロピオン酸"),
            "CH3-CH2-COOH",
            "C3H6O2",
            Some("CCC(=O)O"),
        ),
        path_of_four("Organic", "Aliphatic_compounds", "Carboxylic_acids_and_esters", "Carboxylic_acids"),
    );
    add_entry(
        &mut entries,
        build_compound(
            "benzene",
            None,
            Some("ベンゼン"),
            "C6H6",
            "C6H6",
            Some("c1ccccc1"),
        ),
        path_of_three("Organic", "Aromatic_compounds", "Aromatic_hydrocarbons"),
    );
    add_entry(
        &mut entries,
        build_compound(
            "methylbenzene",
            Some("toluene"),
            Some("トルエン"),
            "C6H5-CH3",
            "C7H8",
            Some("Cc1ccccc1"),
        ),
        path_of_three("Organic", "Aromatic_compounds", "Aromatic_hydrocarbons"),
    );
    add_entry(
        &mut entries,
        build_compound(
            "ethyne",
            Some("acetylene"),
            Some("アセチレン"),
            "HC≡CH",
            "C2H2",
            Some("C#C"),
        ),
        path_of_four("Organic", "Aliphatic_compounds", "Hydrocarbons", "Alkynes"),
    );
    add_entry(
        &mut entries,
        build_compound(
            "but-2-yne",
            Some("dimethylacetylene"),
            Some("2-ブチン"),
            "CH3-C≡C-CH3",
            "C4H6",
            Some("CC#CC"),
        ),
        path_of_four("Organic", "Aliphatic_compounds", "Hydrocarbons", "Alkynes"),
    );
    add_entry(
        &mut entries,
        build_compound(
            "2-methylpropane",
            Some("isobutane"),
            Some("イソブタン"),
            "(CH3)2CH-CH3",
            "C4H10",
            Some("CC(C)C"),
        ),
        path_of_four("Organic", "Aliphatic_compounds", "Hydrocarbons", "Alkanes"),
    );
    add_entry(
        &mut entries,
        build_compound(
            "hexane",
            None,
            Some("ヘキサン"),
            "CH3-(CH2)4-CH3",
            "C6H14",
            Some("CCCCCC"),
        ),
        path_of_four("Organic", "Aliphatic_compounds", "Hydrocarbons", "Alkanes"),
    );
    add_entry(
        &mut entries,
        build_compound(
            "propane-1,2,3-triol",
            Some("glycerol"),
            Some("グリセリン"),
            "HO-CH2-CH(OH)-CH2-OH",
            "C3H8O3",
            Some("OCC(O)CO"),
        ),
        path_of_four("Organic", "Aliphatic_compounds", "Alcohols_and_ethers", "Polyols"),
    );
    add_entry(
        &mut entries,
        build_compound(
            "sodium chloride",
            Some("table salt"),
            Some("塩化ナトリウム"),
            "NaCl",
            "NaCl",
            Some("Cl[Na]"),
        ),
        path_of_three("Inorganic", "Salts", "Halides"),
    );
    add_entry(
        &mut entries,
        build_compound(
            "calcium carbonate",
            Some("calcite"),
            Some("炭酸カルシウム"),
            "CaCO3",
            "CaCO3",
            Some("[Ca+2].[O-]C(=O)[O-]"),
        ),
        path_of_three("Inorganic", "Salts", "Carbonates"),
    );
    assert(entries.deep_view() =~= demo_table());
    entries
}

/// The compounds of the demonstration dataset.
pub fn demo_compounds() -> (compounds: Vec<Compound>)
    ensures
        compounds.deep_view() == demo_table().map_values(
            |entry: CatalogEntryView| entry.compound,
        ),
{
    demo_catalog().all_compounds()
}

/// The demonstration dataset as a catalog.
pub fn demo_catalog() -> (catalog: Catalog)
    ensures
        catalog@ == demo_table(),
{
    Catalog::new(demo_entries())
}

} // verus!
