//! What a front end needs to show a question and to react to an answer:
//! finding the compound behind a prompt, a hint for it, the layout of a
//! question, and the feedback and score of a session.

use crate::catalog_manifest::{CatalogLeaf, CatalogLeafView};
use crate::compound::{Compound, CompoundView, FunctionalGroupView};
use crate::quiz::{QuizItem, QuizMode};
use crate::text::{join, joined};
use crate::views::{lemma_deep_view_push, lemma_take_next};
use vstd::prelude::*;

verus! {

// ---------------------------------------------------------------------------
// Paths
// ---------------------------------------------------------------------------

/// A category path on one line: its labels joined by `" / "`, or a notice
/// that nothing is selected when the path is empty.
pub open spec fn formatted_path(path: Seq<Seq<char>>) -> Seq<char> {
    if path.len() == 0 {
        "Not selected"@
    } else {
        joined(path, " / "@)
    }
}

/// Renders a category path on one line.
pub fn format_path(path: &[String]) -> (line: String)
    ensures
        line@ == formatted_path(path.deep_view()),
{
    if path.len() == 0 {
        String::from_str("Not selected")
    } else {
        join(path, " / ")
    }
}

// ---------------------------------------------------------------------------
// Finding the compound behind a label
// ---------------------------------------------------------------------------

/// The first of `labels` that reads `wanted` is at position `at`.
pub open spec fn first_match(labels: Seq<Seq<char>>, wanted: Seq<char>, at: int) -> bool {
    &&& 0 <= at < labels.len()
    &&& labels[at] == wanted
    &&& forall|j: int| 0 <= j < at ==> labels[j] != wanted
}

/// The English labels of the compounds.
pub open spec fn english_labels(dataset: Seq<CompoundView>) -> Seq<Seq<char>> {
    dataset.map_values(|compound: CompoundView| compound.english_label())
}

/// The structure strings of the compounds.
pub open spec fn structure_labels(dataset: Seq<CompoundView>) -> Seq<Seq<char>> {
    dataset.map_values(|compound: CompoundView| compound.display_structure())
}

/// The labels by which the prompt of a question in `mode` is looked up.
pub open spec fn lookup_labels(dataset: Seq<CompoundView>, mode: QuizMode) -> Seq<Seq<char>> {
    match mode {
        QuizMode::NameToStructure => english_labels(dataset),
        QuizMode::StructureToName => structure_labels(dataset),
    }
}

/// `found` is the first compound of `dataset` whose label, among `labels`,
/// reads `wanted`; none when no label does.
pub open spec fn is_first_with(
    dataset: Seq<CompoundView>,
    labels: Seq<Seq<char>>,
    wanted: Seq<char>,
    found: Option<CompoundView>,
) -> bool {
    match found {
        Some(compound) => exists|at: int|
            first_match(labels, wanted, at) && compound == #[trigger] dataset[at],
        None => !labels.contains(wanted),
    }
}

/// The first compound whose English label reads `label`.
pub fn find_by_name(dataset: &[Compound], label: &str) -> (found: Option<Compound>)
    ensures
        is_first_with(
            dataset.deep_view(),
            english_labels(dataset.deep_view()),
            label@,
            found.deep_view(),
        ),
{
    let wanted = String::from_str(label);
    let ghost labels = english_labels(dataset.deep_view());
    let mut i: usize = 0;
    while i < dataset.len()
        invariant
            i <= dataset.len(),
            wanted@ == label@,
            labels == english_labels(dataset.deep_view()),
            forall|j: int| 0 <= j < i ==> labels[j] != label@,
        decreases dataset.len() - i,
    {
        if dataset[i].english_label() == wanted {
            let found = dataset[i].clone();
            assert(first_match(labels, label@, i as int));
            assert(found@ == dataset.deep_view()[i as int]);
            return Some(found);
        }
        i = i + 1;
    }
    None
}

/// The first compound whose structure string reads `label`.
pub fn find_by_structure(dataset: &[Compound], label: &str) -> (found: Option<Compound>)
    ensures
        is_first_with(
            dataset.deep_view(),
            structure_labels(dataset.deep_view()),
            label@,
            found.deep_view(),
        ),
{
    let wanted = String::from_str(label);
    let ghost labels = structure_labels(dataset.deep_view());
    let mut i: usize = 0;
    while i < dataset.len()
        invariant
            i <= dataset.len(),
            wanted@ == label@,
            labels == structure_labels(dataset.deep_view()),
            forall|j: int| 0 <= j < i ==> labels[j] != label@,
        decreases dataset.len() - i,
    {
        if dataset[i].display_structure() == wanted {
            let found = dataset[i].clone();
            assert(first_match(labels, label@, i as int));
            assert(found@ == dataset.deep_view()[i as int]);
            return Some(found);
        }
        i = i + 1;
    }
    None
}

/// The compound that the prompt of `quiz` shows: the first one whose
/// English label, or structure string, reads as the prompt does.
pub fn compound_for_prompt(dataset: &[Compound], quiz: &QuizItem) -> (found: Option<Compound>)
    ensures
        is_first_with(
            dataset.deep_view(),
            lookup_labels(dataset.deep_view(), quiz@.mode),
            quiz@.prompt,
            found.deep_view(),
        ),
{
    match quiz.mode {
        QuizMode::NameToStructure => find_by_name(dataset, quiz.prompt.as_str()),
        QuizMode::StructureToName => find_by_structure(dataset, quiz.prompt.as_str()),
    }
}

// ---------------------------------------------------------------------------
// Hints
// ---------------------------------------------------------------------------

/// How a functional group is named in a hint.
pub open spec fn group_hint(group: FunctionalGroupView) -> Seq<char> {
    group.name_en + " ("@ + group.pattern + ")"@
}

/// The hint for a compound: its series formula if it has one; else its
/// functional groups if it has any; else its notes if it has any; else its
/// molecular formula if that is not empty; else none.
pub open spec fn hint_for(compound: CompoundView) -> Option<Seq<char>> {
    match compound.series_general_formula {
        Some(series) => Some("Series formula: "@ + series),
        None => if compound.functional_groups.len() > 0 {
            Some(
                "Functional groups: "@ + joined(
                    compound.functional_groups.map_values(
                        |group: FunctionalGroupView| group_hint(group),
                    ),
                    ", "@,
                ),
            )
        } else {
            match compound.notes {
                Some(notes) => Some(notes),
                None => if compound.molecular_formula.len() > 0 {
                    Some("Molecular formula: "@ + compound.molecular_formula)
                } else {
                    None
                },
            }
        },
    }
}

/// The hint to show for `compound`.
pub fn hint_from_compound(compound: &Compound) -> (hint: Option<String>)
    ensures
        hint.deep_view() == hint_for(compound@),
{
    match &compound.series_general_formula {
        Some(series) => {
            let mut hint = String::from_str("Series formula: ");
            hint.append(series.as_str());
            return Some(hint);
        },
        None => {},
    }
    if compound.functional_groups.len() > 0 {
        let ghost render = |group: FunctionalGroupView| group_hint(group);
        let mut groups: Vec<String> = Vec::new();
        let mut i: usize = 0;
        assert(groups.deep_view() =~= compound@.functional_groups.take(0).map_values(render));
        while i < compound.functional_groups.len()
            invariant
                i <= compound.functional_groups.len(),
                render == |group: FunctionalGroupView| group_hint(group),
                groups.deep_view() == compound@.functional_groups.take(i as int).map_values(
                    render,
                ),
            decreases compound.functional_groups.len() - i,
        {
            let group = &compound.functional_groups[i];
            let mut text = group.name_en.clone();
            text.append(" (");
            text.append(group.pattern.as_str());
            text.append(")");
            let ghost shorter = groups;
            groups.push(text);
            proof {
                lemma_deep_view_push(shorter, groups, text);
                lemma_take_next(compound@.functional_groups, i as int);
                assert(compound@.functional_groups.take(i + 1).map_values(render)
                    =~= compound@.functional_groups.take(i as int).map_values(render).push(
                    render(compound@.functional_groups[i as int]),
                ));
            }
            i = i + 1;
        }
        assert(compound@.functional_groups.take(compound.functional_groups.len() as int)
            == compound@.functional_groups);
        let mut hint = String::from_str("Functional groups: ");
        hint.append(join(groups.as_slice(), ", ").as_str());
        return Some(hint);
    }
    match &compound.notes {
        Some(notes) => {
            return Some(notes.clone());
        },
        None => {},
    }
    if !compound.molecular_formula.as_str().is_empty() {
        let mut hint = String::from_str("Molecular formula: ");
        hint.append(compound.molecular_formula.as_str());
        return Some(hint);
    }
    None
}

// ---------------------------------------------------------------------------
// Layout
// ---------------------------------------------------------------------------

/// What the prompt of a question shows.
#[derive(Debug, Clone, Copy, PartialEq, Eq)]
pub enum PromptContent {
    Name,
    Structure,
}

/// What an option of a question shows.
#[derive(Debug, Clone, Copy, PartialEq, Eq)]
pub enum OptionContent {
    Name,
    Structure,
}

/// How prompt and options are placed.
#[derive(Debug, Clone, Copy, PartialEq, Eq)]
pub enum LayoutKind {
    StandardVertical,
    WideHorizontal,
}

/// The layout of one question: what its prompt shows, what each of its
/// four option slots shows, and how they are placed.
#[derive(Debug, Clone, Copy, PartialEq, Eq)]
pub struct QuestionLayout {
    pub prompt: PromptContent,
    pub options: [OptionContent; 4],
    pub layout_kind: LayoutKind,
}

/// The layout that goes with a quiz mode: names are asked with structures
/// as options and the other way round, always placed vertically.
pub open spec fn layout_of(mode: QuizMode) -> QuestionLayout {
    match mode {
        QuizMode::NameToStructure => QuestionLayout {
            prompt: PromptContent::Name,
            options: [
                OptionContent::Structure,
                OptionContent::Structure,
                OptionContent::Structure,
                OptionContent::Structure,
            ],
            layout_kind: LayoutKind::StandardVertical,
        },
        QuizMode::StructureToName => QuestionLayout {
            prompt: PromptContent::Structure,
            options: [
                OptionContent::Name,
                OptionContent::Name,
                OptionContent::Name,
                OptionContent::Name,
            ],
            layout_kind: LayoutKind::StandardVertical,
        },
    }
}

/// The layout in which `quiz` is shown.
pub fn layout_for_quiz(quiz: &QuizItem) -> (layout: QuestionLayout)
    ensures
        layout == layout_of(quiz@.mode),
{
    match quiz.mode {
        QuizMode::NameToStructure => QuestionLayout {
            prompt: PromptContent::Name,
            options: [
                OptionContent::Structure,
                OptionContent::Structure,
                OptionContent::Structure,
                OptionContent::Structure,
            ],
            layout_kind: LayoutKind::StandardVertical,
        },
        QuizMode::StructureToName => QuestionLayout {
            prompt: PromptContent::Structure,
            options: [
                OptionContent::Name,
                OptionContent::Name,
                OptionContent::Name,
                OptionContent::Name,
            ],
            layout_kind: LayoutKind::StandardVertical,
        },
    }
}

// ---------------------------------------------------------------------------
// Feedback and score
// ---------------------------------------------------------------------------

/// The tone of a feedback message.
#[derive(Debug, Clone, Copy, PartialEq, Eq)]
pub enum FeedbackKind {
    Neutral,
    Correct,
    Wrong,
}

/// A message to the learner, with its tone.
#[derive(Debug, PartialEq, Eq)]
pub struct FeedbackState {
    pub message: String,
    pub kind: FeedbackKind,
}

impl Clone for FeedbackState {
    fn clone(&self) -> (copy: Self)
        ensures
            copy.message@ == self.message@,
            copy.kind == self.kind,
    {
        FeedbackState { message: self.message.clone(), kind: self.kind }
    }
}

impl FeedbackState {
    /// A message without judgement.
    pub fn neutral(message: String) -> (state: Self)
        ensures
            state.message@ == message@,
            state.kind == FeedbackKind::Neutral,
    {
        FeedbackState { message, kind: FeedbackKind::Neutral }
    }

    /// A message after a right answer.
    pub fn correct(message: String) -> (state: Self)
        ensures
            state.message@ == message@,
            state.kind == FeedbackKind::Correct,
    {
        FeedbackState { message, kind: FeedbackKind::Correct }
    }

    /// A message after a wrong answer.
    pub fn wrong(message: String) -> (state: Self)
        ensures
            state.message@ == message@,
            state.kind == FeedbackKind::Wrong,
    {
        FeedbackState { message, kind: FeedbackKind::Wrong }
    }
}

/// How many questions of a session were answered, and how many of them
/// correctly.
#[derive(Debug, Clone, Copy, PartialEq, Eq)]
pub struct SessionScore {
    pub total: usize,
    pub correct: usize,
}

impl SessionScore {
    /// No more answers counted correct than were given.
    pub open spec fn consistent(self) -> bool {
        self.correct <= self.total
    }

    /// The score of a session in which nothing was answered yet.
    pub fn new() -> (score: Self)
        ensures
            score.total == 0,
            score.correct == 0,
            score.consistent(),
    {
        SessionScore { total: 0, correct: 0 }
    }

    /// The score after one more answer.
    pub fn record(self, is_correct: bool) -> (score: Self)
        requires
            self.consistent(),
            self.total < usize::MAX,
        ensures
            score.total == self.total + 1,
            score.correct == self.correct + (if is_correct {
                1int
            } else {
                0int
            }),
            score.consistent(),
    {
        SessionScore {
            total: self.total + 1,
            correct: if is_correct {
                self.correct + 1
            } else {
                self.correct
            },
        }
    }

    /// How many answers were wrong; none where more are counted correct
    /// than were given.
    pub fn incorrect(self) -> (count: usize)
        ensures
            count == (if self.correct <= self.total {
                self.total - self.correct
            } else {
                0
            }),
    {
        if self.correct <= self.total {
            self.total - self.correct
        } else {
            0
        }
    }
}

impl Default for SessionScore {
    fn default() -> (score: Self)
        ensures
            score.total == 0,
            score.correct == 0,
    {
        SessionScore { total: 0, correct: 0 }
    }
}

// ---------------------------------------------------------------------------
// Selection and progress
// ---------------------------------------------------------------------------

/// Whether two leaves have the same path and the same file.
pub fn same_leaf(left: &CatalogLeaf, right: &CatalogLeaf) -> (same: bool)
    ensures
        same == (left@ == right@),
{
    if !(left.file == right.file) {
        return false;
    }
    if left.path.len() != right.path.len() {
        assert(left@.path.len() != right@.path.len());
        return false;
    }
    let mut k: usize = 0;
    while k < left.path.len()
        invariant
            k <= left.path.len(),
            left.path.len() == right.path.len(),
            forall|j: int| 0 <= j < k ==> left@.path[j] == right@.path[j],
        decreases left.path.len() - k,
    {
        assert(left@.path[k as int] == left.path[k as int]@);
        assert(right@.path[k as int] == right.path[k as int]@);
        if !(left.path[k] == right.path[k]) {
            return false;
        }
        k = k + 1;
    }
    assert(left@.path =~= right@.path);
    true
}

/// The selection after a click on `leaf`: without the first leaf equal to
/// it when there is one, else with `leaf` added at the end.
pub open spec fn toggled(selection: Seq<CatalogLeafView>, leaf: CatalogLeafView) -> Seq<
    CatalogLeafView,
> {
    if selection.contains(leaf) {
        selection.remove(selection.index_of_first(leaf).unwrap())
    } else {
        selection.push(leaf)
    }
}

/// Takes `leaf` out of the selection when it is in it, and puts it in when
/// it is not.
pub fn toggle_selection(selection: &mut Vec<CatalogLeaf>, leaf: CatalogLeaf)
    ensures
        final(selection).deep_view() == toggled(old(selection).deep_view(), leaf@),
{
    let ghost before = selection.deep_view();
    let mut k: usize = 0;
    while k < selection.len()
        invariant
            k <= selection.len(),
            before == selection.deep_view(),
            *selection == *old(selection),
            forall|j: int| 0 <= j < k ==> before[j] != leaf@,
        decreases selection.len() - k,
    {
        assert(before[k as int] == selection[k as int]@);
        if same_leaf(&selection[k], &leaf) {
            let ghost whole = *selection;
            let _ = selection.remove(k);
            proof {
                before.index_of_first_ensures(leaf@);
                assert(before.index_of_first(leaf@) == Some(k as int));
                assert(selection.deep_view() =~= before.remove(k as int));
            }
            return;
        }
        k = k + 1;
    }
    let ghost shorter = *selection;
    selection.push(leaf);
    proof {
        lemma_deep_view_push(shorter, *selection, leaf);
    }
}

/// What the front end is showing.
#[derive(Debug, Clone, Copy, PartialEq, Eq)]
pub enum Scene {
    /// The menu, where a dataset and a mode are chosen.
    Menu,
    /// A question.
    Game,
}

/// The number of the question being shown: none in the menu; in a game the
/// number of answers given, plus one while the current question is still
/// open.
pub fn question_position(scene: Scene, answered: usize, answer_shown: bool) -> (position: usize)
    requires
        answered < usize::MAX,
    ensures
        position == (match scene {
            Scene::Menu => 0int,
            Scene::Game => if answer_shown {
                answered as int
            } else {
                answered + 1
            },
        }),
{
    match scene {
        Scene::Menu => 0,
        Scene::Game => {
            if answer_shown {
                answered
            } else {
                answered + 1
            }
        },
    }
}

} // verus!
