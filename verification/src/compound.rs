//! Chemical compounds and the display strings derived from them.
//!
//! The display strings are pure functions of a compound's fields.  The quiz
//! engine uses them as prompts, as answer options and as the keys by which it
//! recognises two compounds as the same answer.

use crate::text::{trim, trimmed};
use crate::views::{lemma_deep_view_push, lemma_take_next};
use vstd::prelude::*;

verus! {

// ---------------------------------------------------------------------------
// Functional groups
// ---------------------------------------------------------------------------

/// Functional group metadata that appears within compound definitions.
#[derive(Debug, PartialEq, Eq)]
pub struct FunctionalGroup {
    /// English label for the functional group.
    pub name_en: String,
    /// Japanese label for the functional group.
    pub name_ja: String,
    /// Pattern or formula describing the group.
    pub pattern: String,
}

/// What a [`FunctionalGroup`] holds, as text.
pub ghost struct FunctionalGroupView {
    pub name_en: Seq<char>,
    pub name_ja: Seq<char>,
    pub pattern: Seq<char>,
}

impl FunctionalGroupView {
    /// The line that describes the group in a detail section.
    pub open spec fn detail_line(self) -> Seq<char> {
        self.name_en + " / "@ + self.name_ja + ": "@ + self.pattern
    }
}

impl View for FunctionalGroup {
    type V = FunctionalGroupView;

    open spec fn view(&self) -> FunctionalGroupView {
        FunctionalGroupView {
            name_en: self.name_en@,
            name_ja: self.name_ja@,
            pattern: self.pattern@,
        }
    }
}

impl DeepView for FunctionalGroup {
    type V = FunctionalGroupView;

    open spec fn deep_view(&self) -> FunctionalGroupView {
        self@
    }
}

impl Clone for FunctionalGroup {
    fn clone(&self) -> (copy: Self)
        ensures
            copy@ == self@,
    {
        FunctionalGroup {
            name_en: self.name_en.clone(),
            name_ja: self.name_ja.clone(),
            pattern: self.pattern.clone(),
        }
    }
}

impl FunctionalGroup {
    /// The line that describes the group in a detail section:
    /// English name, Japanese name and pattern.
    pub fn detail_line(&self) -> (line: String)
        ensures
            line@ == self@.detail_line(),
    {
        let mut line = self.name_en.clone();
        line.append(" / ");
        line.append(self.name_ja.as_str());
        line.append(": ");
        line.append(self.pattern.as_str());
        line
    }
}

// ---------------------------------------------------------------------------
// Detail sections
// ---------------------------------------------------------------------------

/// Structured section used to present compound metadata in overlays and summaries.
#[derive(Debug, PartialEq, Eq)]
pub struct CompoundDetailSection {
    /// Section label such as "Functional groups".
    pub label: String,
    /// Individual bullet points within the section.
    pub entries: Vec<String>,
}

/// What a [`CompoundDetailSection`] holds, as text.
pub ghost struct CompoundDetailSectionView {
    pub label: Seq<char>,
    pub entries: Seq<Seq<char>>,
}

impl View for CompoundDetailSection {
    type V = CompoundDetailSectionView;

    open spec fn view(&self) -> CompoundDetailSectionView {
        CompoundDetailSectionView { label: self.label@, entries: self.entries.deep_view() }
    }
}

impl DeepView for CompoundDetailSection {
    type V = CompoundDetailSectionView;

    open spec fn deep_view(&self) -> CompoundDetailSectionView {
        self@
    }
}

impl Clone for CompoundDetailSection {
    fn clone(&self) -> (copy: Self)
        ensures
            copy@ == self@,
    {
        let copy = CompoundDetailSection {
            label: self.label.clone(),
            entries: clone_labels(&self.entries),
        };
        copy
    }
}

/// A copy of a list of strings.
pub fn clone_labels(labels: &[String]) -> (copy: Vec<String>)
    ensures
        copy.deep_view() == labels.deep_view(),
{
    let mut copy: Vec<String> = Vec::new();
    let mut i: usize = 0;
    while i < labels.len()
        invariant
            i <= labels.len(),
            copy.deep_view() == labels.deep_view().take(i as int),
        decreases labels.len() - i,
    {
        let ghost shorter = copy;
        let label = labels[i].clone();
        proof {
            lemma_take_next(labels.deep_view(), i as int);
        }
        copy.push(label);
        proof {
            lemma_deep_view_push(shorter, copy, label);
        }
        i = i + 1;
    }
    assert(labels.deep_view().take(labels.len() as int) == labels.deep_view());
    copy
}

/// A copy of an optional string.
pub fn clone_optional(text: &Option<String>) -> (copy: Option<String>)
    ensures
        copy.deep_view() == text.deep_view(),
{
    match text {
        Some(inner) => Some(inner.clone()),
        None => None,
    }
}

// ---------------------------------------------------------------------------
// Compounds
// ---------------------------------------------------------------------------

/// Represents a chemical compound used for quiz questions.
#[derive(Debug, PartialEq, Eq)]
pub struct Compound {
    /// IUPAC name of the compound.
    pub iupac_name: String,
    /// Common or trivial name if one exists.
    pub common_name: Option<String>,
    /// Name commonly used in Japan.
    pub local_name: Option<String>,
    /// Skeletal structure formula shown as the primary structural representation.
    pub skeletal_formula: String,
    /// Molecular formula shown as a compact representation.
    pub molecular_formula: String,
    /// Generalized formula shared across a series, when applicable.
    pub series_general_formula: Option<String>,
    /// Functional groups that appear in the compound.
    pub functional_groups: Vec<FunctionalGroup>,
    /// Free-form notes about properties or preparation.
    pub notes: Option<String>,
    /// SMILES string used for structure rendering when available.
    pub smiles: Option<String>,
}

/// What a [`Compound`] holds, as text.
pub ghost struct CompoundView {
    pub iupac_name: Seq<char>,
    pub common_name: Option<Seq<char>>,
    pub local_name: Option<Seq<char>>,
    pub skeletal_formula: Seq<char>,
    pub molecular_formula: Seq<char>,
    pub series_general_formula: Option<Seq<char>>,
    pub functional_groups: Seq<FunctionalGroupView>,
    pub notes: Option<Seq<char>>,
    pub smiles: Option<Seq<char>>,
}

/// The section that shows one optional text under `label`: none when the text
/// is absent or holds only white space, else one section whose single entry
/// is the text without its surrounding white space.
pub open spec fn text_section(label: Seq<char>, value: Option<Seq<char>>) -> Seq<
    CompoundDetailSectionView,
> {
    match value {
        Some(text) => if trimmed(text).len() > 0 {
            seq![CompoundDetailSectionView { label: label, entries: seq![trimmed(text)] }]
        } else {
            Seq::empty()
        },
        None => Seq::empty(),
    }
}

/// The section that lists the functional groups, one line each, in their
/// order: none when there are no groups.
pub open spec fn group_section(groups: Seq<FunctionalGroupView>) -> Seq<
    CompoundDetailSectionView,
> {
    if groups.len() > 0 {
        seq![
            CompoundDetailSectionView {
                label: "Functional groups"@,
                entries: groups.map_values(|group: FunctionalGroupView| group.detail_line()),
            },
        ]
    } else {
        Seq::empty()
    }
}

impl CompoundView {
    /// The IUPAC name, followed by the common name in parentheses when there
    /// is one and it differs from the IUPAC name.
    pub open spec fn english_label(self) -> Seq<char> {
        match self.common_name {
            Some(common) => if common != self.iupac_name {
                self.iupac_name + " ("@ + common + ")"@
            } else {
                self.iupac_name
            },
            None => self.iupac_name,
        }
    }

    /// The English label, followed by the local name after a slash when
    /// there is one.
    pub open spec fn display_name(self) -> Seq<char> {
        match self.local_name {
            Some(local) => self.english_label() + " / "@ + local,
            None => self.english_label(),
        }
    }

    /// The skeletal formula, followed by the molecular formula in parentheses.
    pub open spec fn display_structure(self) -> Seq<char> {
        self.skeletal_formula + " ("@ + self.molecular_formula + ")"@
    }

    /// Display name and structure on one line.
    pub open spec fn summary(self) -> Seq<char> {
        self.display_name() + ": "@ + self.display_structure()
    }

    /// The sections that describe the optional metadata: series formula,
    /// functional groups, notes, in that order, each only when present.
    pub open spec fn detail_sections(self) -> Seq<CompoundDetailSectionView> {
        text_section("Series formula"@, self.series_general_formula) + group_section(
            self.functional_groups,
        ) + text_section("Notes"@, self.notes)
    }
}

impl View for Compound {
    type V = CompoundView;

    open spec fn view(&self) -> CompoundView {
        CompoundView {
            iupac_name: self.iupac_name@,
            common_name: self.common_name.deep_view(),
            local_name: self.local_name.deep_view(),
            skeletal_formula: self.skeletal_formula@,
            molecular_formula: self.molecular_formula@,
            series_general_formula: self.series_general_formula.deep_view(),
            functional_groups: self.functional_groups.deep_view(),
            notes: self.notes.deep_view(),
            smiles: self.smiles.deep_view(),
        }
    }
}

impl DeepView for Compound {
    type V = CompoundView;

    open spec fn deep_view(&self) -> CompoundView {
        self@
    }
}

impl Clone for Compound {
    fn clone(&self) -> (copy: Self)
        ensures
            copy@ == self@,
    {
        let mut groups: Vec<FunctionalGroup> = Vec::new();
        let mut i: usize = 0;
        while i < self.functional_groups.len()
            invariant
                i <= self.functional_groups.len(),
                groups.deep_view() == self.functional_groups.deep_view().take(i as int),
            decreases self.functional_groups.len() - i,
        {
            let ghost shorter = groups;
            let group = self.functional_groups[i].clone();
            proof {
                lemma_take_next(self.functional_groups.deep_view(), i as int);
            }
            groups.push(group);
            proof {
                lemma_deep_view_push(shorter, groups, group);
            }
            i = i + 1;
        }
        assert(self.functional_groups.deep_view().take(self.functional_groups.len() as int)
            == self.functional_groups.deep_view());
        Compound {
            iupac_name: self.iupac_name.clone(),
            common_name: clone_optional(&self.common_name),
            local_name: clone_optional(&self.local_name),
            skeletal_formula: self.skeletal_formula.clone(),
            molecular_formula: self.molecular_formula.clone(),
            series_general_formula: clone_optional(&self.series_general_formula),
            functional_groups: groups,
            notes: clone_optional(&self.notes),
            smiles: clone_optional(&self.smiles),
        }
    }
}

/// Appends to `sections` the section for one optional text.
fn add_section_if_present(
    sections: &mut Vec<CompoundDetailSection>,
    label: &str,
    value: &Option<String>,
)
    ensures
        final(sections).deep_view() == old(sections).deep_view() + text_section(
            label@,
            value.deep_view(),
        ),
{
    match value {
        Some(text) => {
            let kept = trim(text.as_str());
            if !kept.as_str().is_empty() {
                let mut entries: Vec<String> = Vec::new();
                entries.push(kept);
                assert(entries.deep_view() == seq![trimmed(text@)]);
                sections.push(
                    CompoundDetailSection { label: String::from_str(label), entries: entries },
                );
                assert(final(sections).deep_view() == old(sections).deep_view() + text_section(
                    label@,
                    value.deep_view(),
                ));
            } else {
                assert(old(sections).deep_view() + text_section(label@, value.deep_view())
                    == old(sections).deep_view());
            }
        },
        None => {
            assert(old(sections).deep_view() + text_section(label@, value.deep_view()) == old(
                sections,
            ).deep_view());
        },
    }
}

impl Compound {
    /// Returns an English display label that prefers the IUPAC name
    /// and appends the common name in parentheses when available and
    /// distinct.
    pub fn english_label(&self) -> (label: String)
        ensures
            label@ == self@.english_label(),
    {
        match &self.common_name {
            Some(common) => {
                if *common == self.iupac_name {
                    self.iupac_name.clone()
                } else {
                    let mut label = self.iupac_name.clone();
                    label.append(" (");
                    label.append(common.as_str());
                    label.append(")");
                    label
                }
            },
            None => self.iupac_name.clone(),
        }
    }

    /// The English label, followed by the local name when there is one.
    pub fn display_name(&self) -> (name: String)
        ensures
            name@ == self@.display_name(),
    {
        let mut name = self.english_label();
        match &self.local_name {
            Some(local) => {
                name.append(" / ");
                name.append(local.as_str());
            },
            None => {},
        }
        name
    }

    /// The skeletal formula, followed by the molecular formula in parentheses.
    pub fn display_structure(&self) -> (structure: String)
        ensures
            structure@ == self@.display_structure(),
    {
        let mut structure = self.skeletal_formula.clone();
        structure.append(" (");
        structure.append(self.molecular_formula.as_str());
        structure.append(")");
        structure
    }

    /// Display name and structure on one line, as the compound is printed.
    pub fn summary(&self) -> (line: String)
        ensures
            line@ == self@.summary(),
    {
        let mut line = self.display_name();
        line.append(": ");
        line.append(self.display_structure().as_str());
        line
    }

    /// Builds descriptive sections for optional metadata such as series formulas,
    /// functional groups, and notes. Empty or whitespace-only values are ignored.
    pub fn detail_sections(&self) -> (sections: Vec<CompoundDetailSection>)
        ensures
            sections.deep_view() == self@.detail_sections(),
    {
        let mut sections: Vec<CompoundDetailSection> = Vec::new();
        assert(sections.deep_view() == Seq::<CompoundDetailSectionView>::empty());
        add_section_if_present(&mut sections, "Series formula", &self.series_general_formula);
        let ghost first = sections.deep_view();
        assert(first == text_section("Series formula"@, self@.series_general_formula));

        if self.functional_groups.len() > 0 {
            let mut lines: Vec<String> = Vec::new();
            let mut i: usize = 0;
            while i < self.functional_groups.len()
                invariant
                    i <= self.functional_groups.len(),
                    lines.deep_view() == self@.functional_groups.take(i as int).map_values(
                        |group: FunctionalGroupView| group.detail_line(),
                    ),
                decreases self.functional_groups.len() - i,
            {
                let ghost shorter = lines;
                let line = self.functional_groups[i].detail_line();
                lines.push(line);
                proof {
                    lemma_deep_view_push(shorter, lines, line);
                    lemma_take_next(self@.functional_groups, i as int);
                    assert(self@.functional_groups.take(i + 1).map_values(
                        |group: FunctionalGroupView| group.detail_line(),
                    ) =~= self@.functional_groups.take(i as int).map_values(
                        |group: FunctionalGroupView| group.detail_line(),
                    ).push(self@.functional_groups[i as int].detail_line()));
                }
                i = i + 1;
            }
            assert(self@.functional_groups.take(self.functional_groups.len() as int)
                == self@.functional_groups);
            sections.push(
                CompoundDetailSection {
                    label: String::from_str("Functional groups"),
                    entries: lines,
                },
            );
            assert(sections.deep_view() == first + group_section(self@.functional_groups));
        } else {
            assert(sections.deep_view() == first + group_section(self@.functional_groups));
        }
        add_section_if_present(&mut sections, "Notes", &self.notes);
        sections
    }
}

} // verus!
