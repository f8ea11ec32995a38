//! The quiz engine: one multiple-choice question drawn from a list of compounds.
//!
//! A question shows one display string of a compound as the prompt and asks
//! for the other among several options.  Compounds whose option text is the
//! same count as one answer, so that no two options of a question read alike.

use crate::compound::{clone_labels, Compound, CompoundView};
use crate::views::{lemma_deep_view_push, lemma_take_next};
use rand::rngs::StdRng;
use rand::seq::SliceRandom;
use vstd::prelude::*;

verus! {

// ---------------------------------------------------------------------------
// Types
// ---------------------------------------------------------------------------

/// Quiz type describing the relationship between prompt and answers.
#[derive(Debug, Clone, Copy, PartialEq, Eq)]
pub enum QuizMode {
    /// Prompts with a compound name and expects the skeletal structure as the answer.
    NameToStructure,
    /// Prompts with a skeletal structure and expects the compound name as the answer.
    StructureToName,
}

/// A single generated quiz question.
#[derive(Debug, PartialEq, Eq)]
pub struct QuizItem {
    pub mode: QuizMode,
    /// Text shown as the question prompt.
    pub prompt: String,
    /// List of answer options. Length is always `option_count` passed to the generator.
    pub options: Vec<String>,
    /// Index in `options` that contains the correct answer.
    pub correct_index: usize,
}

/// What a [`QuizItem`] holds, as text.
pub ghost struct QuizItemView {
    pub mode: QuizMode,
    pub prompt: Seq<char>,
    pub options: Seq<Seq<char>>,
    pub correct_index: int,
}

impl View for QuizItem {
    type V = QuizItemView;

    open spec fn view(&self) -> QuizItemView {
        QuizItemView {
            mode: self.mode,
            prompt: self.prompt@,
            options: self.options.deep_view(),
            correct_index: self.correct_index as int,
        }
    }
}

impl Clone for QuizItem {
    fn clone(&self) -> (copy: Self)
        ensures
            copy@ == self@,
    {
        QuizItem {
            mode: self.mode,
            prompt: self.prompt.clone(),
            options: clone_labels(self.options.as_slice()),
            correct_index: self.correct_index,
        }
    }
}

/// Why no question could be generated.
#[derive(Debug, PartialEq, Eq)]
pub enum QuizError {
    /// Fewer compounds were supplied than options were asked for.
    NotEnoughCompounds { required: usize, available: usize },
    /// The compounds render to fewer different options than were asked for.
    InsufficientUniqueOptions { required: usize, unique: usize },
    /// Fewer than two options were asked for.
    OptionCountTooSmall,
}

/// The random source that drives the sampling.
#[verifier::external_type_specification]
#[verifier::external_body]
pub struct ExStdRng(StdRng);

// ---------------------------------------------------------------------------
// Labels
// ---------------------------------------------------------------------------

impl QuizMode {
    /// The text a compound contributes as an answer option.
    pub open spec fn option_label(self, compound: CompoundView) -> Seq<char> {
        match self {
            QuizMode::NameToStructure => compound.display_structure(),
            QuizMode::StructureToName => compound.display_name(),
        }
    }

    /// The text a compound contributes as a prompt: the display string that
    /// its option label is not.
    pub open spec fn prompt_label(self, compound: CompoundView) -> Seq<char> {
        match self {
            QuizMode::NameToStructure => compound.display_name(),
            QuizMode::StructureToName => compound.display_structure(),
        }
    }

    /// Renders the answer option of `compound`.
    pub fn render_option(self, compound: &Compound) -> (label: String)
        ensures
            label@ == self.option_label(compound@),
    {
        match self {
            QuizMode::NameToStructure => compound.display_structure(),
            QuizMode::StructureToName => compound.display_name(),
        }
    }

    /// Renders the prompt of `compound`.
    pub fn render_prompt(self, compound: &Compound) -> (label: String)
        ensures
            label@ == self.prompt_label(compound@),
    {
        match self {
            QuizMode::NameToStructure => compound.display_name(),
            QuizMode::StructureToName => compound.display_structure(),
        }
    }
}

/// The option labels of all compounds, in their order.
pub open spec fn option_labels(compounds: Seq<CompoundView>, mode: QuizMode) -> Seq<Seq<char>> {
    compounds.map_values(|compound: CompoundView| mode.option_label(compound))
}

// ---------------------------------------------------------------------------
// Deduplication by label
// ---------------------------------------------------------------------------

/// Position `i` holds a label that no earlier position holds.
pub open spec fn first_of_its_label(labels: Seq<Seq<char>>, i: int) -> bool {
    &&& 0 <= i < labels.len()
    &&& forall|j: int| 0 <= j < i ==> labels[j] != labels[i]
}

/// The positions that hold the first occurrence of their label, ascending.
pub open spec fn first_occurrences(labels: Seq<Seq<char>>) -> Seq<int>
    decreases labels.len(),
{
    if labels.len() == 0 {
        Seq::empty()
    } else {
        let earlier = first_occurrences(labels.drop_last());
        if first_of_its_label(labels, labels.len() - 1) {
            earlier.push(labels.len() - 1)
        } else {
            earlier
        }
    }
}

/// A list of positions as mathematical integers.
pub open spec fn as_ints(positions: Seq<usize>) -> Seq<int> {
    positions.map_values(|p: usize| p as int)
}

/// `first_occurrences` lists exactly the positions that are the first of
/// their label, in ascending order.
pub proof fn lemma_first_occurrences(labels: Seq<Seq<char>>)
    ensures
        forall|i: int|
            first_occurrences(labels).contains(i) <==> first_of_its_label(labels, i),
        forall|a: int, b: int|
            0 <= a < b < first_occurrences(labels).len() ==> first_occurrences(labels)[a]
                < first_occurrences(labels)[b],
        first_occurrences(labels).no_duplicates(),
        first_occurrences(labels).len() <= labels.len(),
        forall|k: int|
            0 <= k < first_occurrences(labels).len() ==> 0 <= #[trigger] first_occurrences(
                labels,
            )[k] < labels.len(),
    decreases labels.len(),
{
    let firsts = first_occurrences(labels);
    if labels.len() == 0 {
    } else {
        let shorter = labels.drop_last();
        let earlier = first_occurrences(shorter);
        let last = labels.len() - 1;
        lemma_first_occurrences(shorter);
        assert(shorter.len() == last);
        assert forall|i: int| 0 <= i < last implies (first_of_its_label(shorter, i)
            <==> first_of_its_label(labels, i)) by {
            assert(forall|j: int| 0 <= j <= i ==> shorter[j] == labels[j]);
        }
        assert forall|i: int| firsts.contains(i) <==> first_of_its_label(labels, i) by {
            if firsts.contains(i) {
                let k = choose|k: int| 0 <= k < firsts.len() && firsts[k] == i;
                if k < earlier.len() {
                    assert(earlier.contains(earlier[k]));
                }
            }
            if first_of_its_label(labels, i) {
                if i < last {
                    assert(earlier.contains(i));
                    let k = choose|k: int| 0 <= k < earlier.len() && earlier[k] == i;
                    assert(firsts[k] == i);
                } else {
                    assert(firsts[firsts.len() - 1] == i);
                }
            }
        }
    }
}

/// Every label has its first occurrence among `first_occurrences`.
pub proof fn lemma_label_has_first(labels: Seq<Seq<char>>, i: int)
    requires
        0 <= i < labels.len(),
    ensures
        exists|j: int|
            0 <= j <= i && first_of_its_label(labels, j) && #[trigger] labels[j] == labels[i],
    decreases i,
{
    if first_of_its_label(labels, i) {
        assert(labels[i] == labels[i]);
    } else {
        let j = choose|j: int| 0 <= j < i && labels[j] == labels[i];
        lemma_label_has_first(labels, j);
    }
}

/// How many different labels the list holds.
pub open spec fn distinct_count(labels: Seq<Seq<char>>) -> nat {
    labels.to_set().len()
}

/// There are as many first occurrences as there are different labels.
pub proof fn lemma_first_occurrences_count(labels: Seq<Seq<char>>)
    ensures
        first_occurrences(labels).len() == distinct_count(labels),
    decreases labels.len(),
{
    vstd::seq_lib::seq_to_set_is_finite(labels);
    if labels.len() == 0 {
        assert(labels.to_set() =~= Set::<Seq<char>>::empty());
    } else {
        let shorter = labels.drop_last();
        let last = labels.len() - 1;
        lemma_first_occurrences_count(shorter);
        vstd::seq_lib::seq_to_set_is_finite(shorter);
        assert(labels =~= shorter.push(labels[last]));
        assert forall|x: Seq<char>| labels.to_set().contains(x) <==> shorter.to_set().insert(
            labels[last],
        ).contains(x) by {
            if labels.contains(x) {
                let k = choose|k: int| 0 <= k < labels.len() && labels[k] == x;
                if k < last {
                    assert(shorter[k] == x);
                }
            }
            if shorter.contains(x) {
                let k = choose|k: int| 0 <= k < shorter.len() && shorter[k] == x;
                assert(labels[k] == x);
            }
            if x == labels[last] {
                assert(labels[last] == x);
            }
        }
        assert(labels.to_set() =~= shorter.to_set().insert(labels[last]));
        if first_of_its_label(labels, last) {
            if shorter.contains(labels[last]) {
                let k = choose|k: int| 0 <= k < shorter.len() && shorter[k] == labels[last];
                assert(labels[k] == labels[last]);
            }
            assert(!shorter.to_set().contains(labels[last]));
        } else {
            let j = choose|j: int| 0 <= j < last && labels[j] == labels[last];
            assert(shorter[j] == labels[last]);
            assert(shorter.to_set().contains(labels[last]));
        }
    }
}

/// Two different first occurrences hold different labels.
pub proof fn lemma_firsts_differ(labels: Seq<Seq<char>>, i: int, j: int)
    requires
        first_of_its_label(labels, i),
        first_of_its_label(labels, j),
        i != j,
    ensures
        labels[i] != labels[j],
{
}

/// Whether `wanted` is among `labels`.
fn holds_label(labels: &Vec<String>, wanted: &String) -> (found: bool)
    ensures
        found == labels.deep_view().contains(wanted@),
{
    let mut i: usize = 0;
    while i < labels.len()
        invariant
            i <= labels.len(),
            forall|k: int| 0 <= k < i ==> labels.deep_view()[k] != wanted@,
        decreases labels.len() - i,
    {
        assert(labels.deep_view()[i as int] == labels[i as int]@);
        if labels[i] == *wanted {
            return true;
        }
        i = i + 1;
    }
    false
}

/// What one more label does to the first occurrences: the new position joins
/// them exactly when its label is not among the labels already kept.
proof fn lemma_first_occurrences_step(labels: Seq<Seq<char>>, n: int, kept: Seq<Seq<char>>)
    requires
        0 <= n < labels.len(),
        kept.len() == first_occurrences(labels.take(n)).len(),
        forall|k: int|
            0 <= k < kept.len() ==> #[trigger] kept[k] == labels[first_occurrences(
                labels.take(n),
            )[k]],
    ensures
        kept.contains(labels[n]) <==> !first_of_its_label(labels.take(n + 1), n),
        first_occurrences(labels.take(n + 1)) == if kept.contains(labels[n]) {
            first_occurrences(labels.take(n))
        } else {
            first_occurrences(labels.take(n)).push(n)
        },
{
    let prefix = labels.take(n);
    let longer = labels.take(n + 1);
    let firsts = first_occurrences(prefix);
    assert(longer.drop_last() =~= prefix);
    lemma_first_occurrences(prefix);
    if kept.contains(labels[n]) {
        let k = choose|k: int| 0 <= k < kept.len() && kept[k] == labels[n];
        assert(0 <= firsts[k] < n);
        assert(longer[firsts[k]] == longer[n]);
    } else {
        assert forall|j: int| 0 <= j < n implies longer[j] != longer[n] by {
            lemma_label_has_first(prefix, j);
            let f = choose|f: int|
                0 <= f <= j && first_of_its_label(prefix, f) && #[trigger] prefix[f] == prefix[j];
            assert(firsts.contains(f));
            let k = choose|k: int| 0 <= k < firsts.len() && firsts[k] == f;
            assert(kept[k] == labels[f]);
        }
    }
}

/// The positions of the compounds that are the first to render their option
/// label, ascending.  Later compounds whose label was already seen are left
/// out, exact duplicates among them.
pub fn unique_option_indices(compounds: &[Compound], mode: QuizMode) -> (unique: Vec<usize>)
    ensures
        as_ints(unique@) == first_occurrences(option_labels(compounds.deep_view(), mode)),
{
    let ghost labels = option_labels(compounds.deep_view(), mode);
    let mut seen: Vec<String> = Vec::new();
    let mut unique: Vec<usize> = Vec::new();
    let mut idx: usize = 0;
    assert(labels.take(0) =~= Seq::<Seq<char>>::empty());
    assert(as_ints(unique@) =~= Seq::<int>::empty());
    while idx < compounds.len()
        invariant
            idx <= compounds.len(),
            labels == option_labels(compounds.deep_view(), mode),
            labels.len() == compounds.len(),
            as_ints(unique@) == first_occurrences(labels.take(idx as int)),
            seen.deep_view().len() == unique@.len(),
            forall|k: int|
                0 <= k < unique@.len() ==> #[trigger] seen.deep_view()[k] == labels[as_ints(
                    unique@,
                )[k]],
        decreases compounds.len() - idx,
    {
        let label = mode.render_option(&compounds[idx]);
        proof {
            assert(label@ == labels[idx as int]);
            lemma_first_occurrences_step(labels, idx as int, seen.deep_view());
        }
        if !holds_label(&seen, &label) {
            let ghost seen_before = seen;
            let ghost unique_before = unique@;
            seen.push(label);
            unique.push(idx);
            proof {
                lemma_deep_view_push(seen_before, seen, label);
                assert(as_ints(unique@) =~= as_ints(unique_before).push(idx as int));
            }
        }
        idx = idx + 1;
    }
    assert(labels.take(compounds.len() as int) =~= labels);
    unique
}

// ---------------------------------------------------------------------------
// Assembling a question
// ---------------------------------------------------------------------------

/// The first position at which `items` holds `wanted`.
pub open spec fn position_of(items: Seq<int>, wanted: int) -> int
    decreases items.len(),
{
    if items.len() == 0 || items.first() == wanted {
        0
    } else {
        1 + position_of(items.drop_first(), wanted)
    }
}

/// `position_of` finds the first place that holds the wanted item.
pub proof fn lemma_position_of(items: Seq<int>, wanted: int, p: int)
    requires
        0 <= p < items.len(),
        items[p] == wanted,
        forall|j: int| 0 <= j < p ==> items[j] != wanted,
    ensures
        position_of(items, wanted) == p,
    decreases p,
{
    if p > 0 {
        let rest = items.drop_first();
        assert(rest[p - 1] == items[p]);
        assert forall|j: int| 0 <= j < p - 1 implies rest[j] != wanted by {
            assert(rest[j] == items[j + 1]);
        }
        lemma_position_of(rest, wanted, p - 1);
    }
}

/// The question that shows the compounds at the positions `arranged`, in
/// that order, and asks for the one at position `correct`.
pub open spec fn assembled(
    compounds: Seq<CompoundView>,
    mode: QuizMode,
    arranged: Seq<int>,
    correct: int,
) -> QuizItemView {
    QuizItemView {
        mode: mode,
        prompt: mode.prompt_label(compounds[correct]),
        options: arranged.map_values(|i: int| mode.option_label(compounds[i])),
        correct_index: position_of(arranged, correct),
    }
}

/// Builds the question that shows the compounds at `arranged`, in that order,
/// and asks for the one at `correct`.
pub fn assemble_quiz(
    compounds: &[Compound],
    mode: QuizMode,
    arranged: &[usize],
    correct: usize,
) -> (item: QuizItem)
    requires
        forall|k: int| 0 <= k < arranged@.len() ==> arranged@[k] < compounds@.len(),
        arranged@.contains(correct),
    ensures
        item@ == assembled(compounds.deep_view(), mode, as_ints(arranged@), correct as int),
{
    let ghost views = compounds.deep_view();
    let ghost places = as_ints(arranged@);
    let mut options: Vec<String> = Vec::new();
    let mut correct_index: usize = 0;
    let mut found = false;
    let mut k: usize = 0;
    while k < arranged.len()
        invariant
            k <= arranged.len(),
            views == compounds.deep_view(),
            places == as_ints(arranged@),
            forall|j: int| 0 <= j < arranged@.len() ==> arranged@[j] < compounds@.len(),
            options.deep_view() == places.take(k as int).map_values(
                |i: int| mode.option_label(views[i]),
            ),
            found ==> correct_index < k && arranged@[correct_index as int] == correct,
            found ==> forall|j: int| 0 <= j < correct_index ==> arranged@[j] != correct,
            !found ==> forall|j: int| 0 <= j < k ==> arranged@[j] != correct,
        decreases arranged.len() - k,
    {
        let place = arranged[k];
        let label = mode.render_option(&compounds[place]);
        let ghost shorter = options;
        options.push(label);
        proof {
            lemma_deep_view_push(shorter, options, label);
            lemma_take_next(places, k as int);
            assert(places.take(k + 1).map_values(|i: int| mode.option_label(views[i]))
                =~= places.take(k as int).map_values(|i: int| mode.option_label(views[i])).push(
                mode.option_label(views[places[k as int]]),
            ));
        }
        if !found && place == correct {
            correct_index = k;
            found = true;
        }
        k = k + 1;
    }
    proof {
        assert(places.take(arranged.len() as int) =~= places);
        let w = choose|w: int| 0 <= w < arranged@.len() && arranged@[w] == correct;
        assert(found);
        assert forall|j: int| 0 <= j < correct_index implies places[j] != correct as int by {
            assert(arranged@[j] != correct);
        }
        lemma_position_of(places, correct as int, correct_index as int);
    }
    QuizItem {
        mode: mode,
        prompt: mode.render_prompt(&compounds[correct]),
        options: options,
        correct_index: correct_index,
    }
}

// ---------------------------------------------------------------------------
// What a generated question is
// ---------------------------------------------------------------------------

/// `arranged` is a selection the engine may draw: `count` different positions,
/// each the first of its label, in any order.
pub open spec fn is_draw(labels: Seq<Seq<char>>, count: int, arranged: Seq<int>) -> bool {
    &&& arranged.len() == count
    &&& arranged.no_duplicates()
    &&& forall|k: int| 0 <= k < arranged.len() ==> first_of_its_label(labels, #[trigger] arranged[k])
}

/// `item` is a question over `compounds` with `count` options: the question
/// assembled from some selection the engine may draw and one of its members.
pub open spec fn is_quiz_of(
    compounds: Seq<CompoundView>,
    mode: QuizMode,
    count: int,
    item: QuizItemView,
) -> bool {
    exists|arranged: Seq<int>, correct: int|
        is_draw(option_labels(compounds, mode), count, arranged) && arranged.contains(correct)
            && item == #[trigger] assembled(compounds, mode, arranged, correct)
}

/// A generated question has as many options as were asked for, no two of
/// them alike, each the option label of a compound of the list; its correct
/// index is in range; and some compound renders both the prompt and, as its
/// option label, the option at the correct index.
pub proof fn lemma_quiz_properties(
    compounds: Seq<CompoundView>,
    mode: QuizMode,
    count: int,
    item: QuizItemView,
)
    requires
        is_quiz_of(compounds, mode, count, item),
    ensures
        item.mode == mode,
        item.options.len() == count,
        0 <= item.correct_index < item.options.len(),
        item.options.no_duplicates(),
        forall|k: int|
            0 <= k < item.options.len() ==> exists|c: int|
                0 <= c < compounds.len() && #[trigger] item.options[k] == mode.option_label(
                    #[trigger] compounds[c],
                ),
        exists|c: int|
            0 <= c < compounds.len() && item.prompt == mode.prompt_label(#[trigger] compounds[c])
                && item.options[item.correct_index] == mode.option_label(compounds[c]),
{
    let labels = option_labels(compounds, mode);
    let (arranged, correct) = choose|arranged: Seq<int>, correct: int|
        is_draw(labels, count, arranged) && arranged.contains(correct) && item
            == #[trigger] assembled(compounds, mode, arranged, correct);
    lemma_position_is_first(arranged, correct);
    let p = item.correct_index;
    assert(arranged[p] == correct);
    assert(first_of_its_label(labels, arranged[p]));
    assert(item.options[p] == mode.option_label(compounds[correct]));
    assert forall|i: int, j: int|
        0 <= i < item.options.len() && 0 <= j < item.options.len() && i != j implies item.options[i]
        != item.options[j] by {
        assert(first_of_its_label(labels, arranged[i]));
        assert(first_of_its_label(labels, arranged[j]));
        lemma_firsts_differ(labels, arranged[i], arranged[j]);
    }
    assert forall|k: int| 0 <= k < item.options.len() implies exists|c: int|
        0 <= c < compounds.len() && #[trigger] item.options[k] == mode.option_label(
            #[trigger] compounds[c],
        ) by {
        assert(first_of_its_label(labels, arranged[k]));
        let c = arranged[k];
        assert(0 <= c < compounds.len() && item.options[k] == mode.option_label(compounds[c]));
    }
}

/// Where `position_of` points, the wanted item stands, and nowhere before.
pub proof fn lemma_position_is_first(items: Seq<int>, wanted: int)
    requires
        items.contains(wanted),
    ensures
        0 <= position_of(items, wanted) < items.len(),
        items[position_of(items, wanted)] == wanted,
        forall|j: int| 0 <= j < position_of(items, wanted) ==> items[j] != wanted,
    decreases items.len(),
{
    let w = choose|w: int| 0 <= w < items.len() && items[w] == wanted;
    if items.first() != wanted {
        let rest = items.drop_first();
        assert(rest[w - 1] == wanted);
        lemma_position_is_first(rest, wanted);
        assert forall|j: int| 0 <= j < position_of(items, wanted) implies items[j] != wanted by {
            if j > 0 {
                assert(rest[j - 1] == items[j]);
            }
        }
    }
}

/// Where compounds with the same prompt always share their option label,
/// every compound that matches the prompt of a generated question has the
/// option at the correct index as its option label.
pub proof fn lemma_prompt_identifies_answer(
    compounds: Seq<CompoundView>,
    mode: QuizMode,
    count: int,
    item: QuizItemView,
    c: int,
)
    requires
        is_quiz_of(compounds, mode, count, item),
        forall|i: int, j: int|
            0 <= i < compounds.len() && 0 <= j < compounds.len() && mode.prompt_label(
                #[trigger] compounds[i],
            ) == mode.prompt_label(#[trigger] compounds[j]) ==> mode.option_label(compounds[i])
                == mode.option_label(compounds[j]),
        0 <= c < compounds.len(),
        mode.prompt_label(compounds[c]) == item.prompt,
    ensures
        item.options[item.correct_index] == mode.option_label(compounds[c]),
{
    lemma_quiz_properties(compounds, mode, count, item);
}

// ---------------------------------------------------------------------------
// Sampling
// ---------------------------------------------------------------------------

/// Calls `SliceRandom::shuffle` of the rand crate, which only swaps items of
/// the slice among themselves.  The contract claims just that: afterwards
/// the vector holds the same items, each as often as before.  Which order
/// comes out depends on the state of the random source and is left open.
#[verifier::external_body]
fn shuffle_indices(rng: &mut StdRng, items: &mut Vec<usize>)
    ensures
        final(items)@.to_multiset() == old(items)@.to_multiset(),
{
    items.shuffle(rng);
}

/// A rearrangement of a list without repetitions has none either, is as
/// long, and holds the same items.
pub proof fn lemma_rearranged(before: Seq<usize>, after: Seq<usize>)
    requires
        before.to_multiset() == after.to_multiset(),
        before.no_duplicates(),
    ensures
        after.no_duplicates(),
        after.len() == before.len(),
        forall|x: usize| after.contains(x) <==> before.contains(x),
{
    vstd::seq_lib::to_multiset_len(before);
    vstd::seq_lib::to_multiset_len(after);
    before.lemma_multiset_has_no_duplicates();
    after.lemma_multiset_has_no_duplicates_conv();
    assert forall|x: usize| after.contains(x) <==> before.contains(x) by {
        vstd::seq_lib::to_multiset_contains(before, x);
        vstd::seq_lib::to_multiset_contains(after, x);
    }
}

/// Generates a quiz item for the given compounds and quiz mode.
///
/// Compounds that render the same option label count once.  From those that
/// remain the random source picks `option_count`, the first pick being the
/// correct answer, and then the order in which the options are shown.
///
/// Fails with [`QuizError::OptionCountTooSmall`] when fewer than two options
/// are asked for, with [`QuizError::NotEnoughCompounds`] when there are fewer
/// compounds than options, and with [`QuizError::InsufficientUniqueOptions`]
/// when the compounds render fewer different option labels than that.
pub fn generate_quiz(
    rng: &mut StdRng,
    compounds: &[Compound],
    mode: QuizMode,
    option_count: usize,
) -> (result: Result<QuizItem, QuizError>)
    ensures
        option_count < 2 ==> result == Err::<QuizItem, QuizError>(QuizError::OptionCountTooSmall),
        option_count >= 2 && compounds@.len() < option_count ==> result == Err::<
            QuizItem,
            QuizError,
        >(
            QuizError::NotEnoughCompounds {
                required: option_count,
                available: compounds@.len() as usize,
            },
        ),
        option_count >= 2 && compounds@.len() >= option_count && distinct_count(
            option_labels(compounds.deep_view(), mode),
        ) < option_count ==> result == Err::<QuizItem, QuizError>(
            QuizError::InsufficientUniqueOptions {
                required: option_count,
                unique: distinct_count(option_labels(compounds.deep_view(), mode)) as usize,
            },
        ),
        option_count >= 2 && distinct_count(option_labels(compounds.deep_view(), mode))
            >= option_count ==> result is Ok,
        result matches Ok(item) ==> {
            &&& is_quiz_of(compounds.deep_view(), mode, option_count as int, item@)
            &&& item@.mode == mode
            &&& item@.options.len() == option_count
            &&& item@.correct_index < item@.options.len()
            &&& item@.options.no_duplicates()
            &&& exists|c: int|
                0 <= c < compounds@.len() && item@.prompt == mode.prompt_label(
                    #[trigger] compounds.deep_view()[c],
                ) && item@.options[item@.correct_index] == mode.option_label(
                    compounds.deep_view()[c],
                )
        },
{
    let ghost views = compounds.deep_view();
    let ghost labels = option_labels(views, mode);
    proof {
        lemma_first_occurrences(labels);
        lemma_first_occurrences_count(labels);
    }
    if option_count < 2 {
        return Err(QuizError::OptionCountTooSmall);
    }
    if compounds.len() < option_count {
        return Err(
            QuizError::NotEnoughCompounds { required: option_count, available: compounds.len() },
        );
    }
    let unique_indices = unique_option_indices(compounds, mode);
    assert(unique_indices@.len() == as_ints(unique_indices@).len());
    if unique_indices.len() < option_count {
        return Err(
            QuizError::InsufficientUniqueOptions {
                required: option_count,
                unique: unique_indices.len(),
            },
        );
    }
    let ghost firsts = unique_indices@;
    proof {
        assert forall|i: int, j: int| 0 <= i < j < firsts.len() implies firsts[i] != firsts[j] by {
            assert(as_ints(firsts)[i] < as_ints(firsts)[j]);
        }
    }
    let mut selected = unique_indices;
    shuffle_indices(rng, &mut selected);
    let ghost sampled = selected@;
    proof {
        lemma_rearranged(firsts, sampled);
    }
    selected.truncate(option_count);
    let ghost taken = selected@;
    let correct_compound_index = selected[0];
    proof {
        assert(taken == sampled.take(option_count as int));
        assert forall|i: int, j: int| 0 <= i < j < taken.len() implies taken[i] != taken[j] by {
            assert(taken[i] == sampled[i] && taken[j] == sampled[j]);
        }
    }
    shuffle_indices(rng, &mut selected);
    let ghost arranged = selected@;
    proof {
        lemma_rearranged(taken, arranged);
        assert(taken.contains(taken[0]));
        assert forall|k: int| 0 <= k < arranged.len() implies first_of_its_label(
            labels,
            #[trigger] as_ints(arranged)[k],
        ) by {
            assert(arranged.contains(arranged[k]));
            let t = choose|t: int| 0 <= t < taken.len() && taken[t] == arranged[k];
            assert(sampled.contains(sampled[t]));
            let f = choose|f: int| 0 <= f < firsts.len() && firsts[f] == sampled[t];
            assert(as_ints(firsts)[f] == arranged[k] as int);
            assert(first_occurrences(labels).contains(as_ints(firsts)[f]));
        }
        assert forall|k: int| 0 <= k < arranged.len() implies arranged[k] < compounds@.len() by {
            assert(first_of_its_label(labels, as_ints(arranged)[k]));
        }
        assert forall|i: int, j: int|
            0 <= i < as_ints(arranged).len() && 0 <= j < as_ints(arranged).len() && i
                != j implies as_ints(arranged)[i] != as_ints(arranged)[j] by {
            assert(arranged[i] != arranged[j]);
        }
        assert(is_draw(labels, option_count as int, as_ints(arranged)));
        let w = choose|w: int| 0 <= w < arranged.len() && arranged[w] == correct_compound_index;
        assert(as_ints(arranged)[w] == correct_compound_index as int);
    }
    let item = assemble_quiz(compounds, mode, selected.as_slice(), correct_compound_index);
    proof {
        assert(item@ == assembled(
            views,
            mode,
            as_ints(arranged),
            correct_compound_index as int,
        ));
        lemma_quiz_properties(views, mode, option_count as int, item@);
    }
    Ok(item)
}

} // verus!
