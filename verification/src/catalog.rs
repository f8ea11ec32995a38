//! The catalog: compounds indexed by the category path under which they are
//! filed.
//!
//! A category path is a list of labels, the top-level category first.  The
//! catalog keeps its entries in the order in which they were given and holds
//! duplicates as they come.

use crate::compound::{clone_labels, Compound, CompoundView};
use crate::order::{
    lemma_path_transitive, order_paths, path_before, strictly_ascending, PathOrder,
};
use crate::text::{join, joined};
use crate::views::{lemma_deep_view_insert, lemma_deep_view_push, lemma_take_next};
use vstd::prelude::*;

verus! {

// ---------------------------------------------------------------------------
// Entries
// ---------------------------------------------------------------------------

/// A compound together with the category path under which it is filed.
#[derive(Debug, PartialEq, Eq)]
pub struct CatalogEntry {
    pub compound: Compound,
    pub categories: Vec<String>,
}

/// What a [`CatalogEntry`] holds, as text.
pub ghost struct CatalogEntryView {
    pub compound: CompoundView,
    pub categories: Seq<Seq<char>>,
}

impl View for CatalogEntry {
    type V = CatalogEntryView;

    open spec fn view(&self) -> CatalogEntryView {
        CatalogEntryView { compound: self.compound@, categories: self.categories.deep_view() }
    }
}

impl DeepView for CatalogEntry {
    type V = CatalogEntryView;

    open spec fn deep_view(&self) -> CatalogEntryView {
        self@
    }
}

impl Clone for CatalogEntry {
    fn clone(&self) -> (copy: Self)
        ensures
            copy@ == self@,
    {
        CatalogEntry {
            compound: self.compound.clone(),
            categories: clone_labels(self.categories.as_slice()),
        }
    }
}

impl CatalogEntry {
    /// The category path on one line, its labels joined by `" / "`.
    pub fn category_path(&self) -> (path: String)
        ensures
            path@ == joined(self@.categories, " / "@),
    {
        join(self.categories.as_slice(), " / ")
    }
}

/// Why a category lookup failed.
#[derive(Debug, PartialEq, Eq)]
pub enum CatalogError {
    /// The path asked for holds no label.
    EmptyPath,
    /// No entry is filed under the path asked for.
    CategoryNotFound { path: String },
}

// ---------------------------------------------------------------------------
// Specification of the queries
// ---------------------------------------------------------------------------

/// Whether an entry is filed under `path`: its own category path starts with
/// all the labels of `path`, in order.
pub open spec fn filed_under(entry: CatalogEntryView, path: Seq<Seq<char>>) -> bool {
    path.is_prefix_of(entry.categories)
}

/// The compounds of the entries filed under `path`, in the order of the
/// entries.
pub open spec fn matching_compounds(entries: Seq<CatalogEntryView>, path: Seq<Seq<char>>) -> Seq<
    CompoundView,
> {
    entries.filter(|entry: CatalogEntryView| filed_under(entry, path)).map_values(
        |entry: CatalogEntryView| entry.compound,
    )
}

/// `path` is the first `depth` labels of the category path of entry `i`,
/// for a `depth` of at least one.
pub open spec fn is_prefix_at(
    entries: Seq<CatalogEntryView>,
    path: Seq<Seq<char>>,
    i: int,
    depth: int,
) -> bool {
    &&& 0 <= i < entries.len()
    &&& 1 <= depth <= entries[i].categories.len()
    &&& path == entries[i].categories.take(depth)
}

/// `path` is a category under which something is filed: a non-empty prefix
/// of the category path of some entry.
pub open spec fn is_available(entries: Seq<CatalogEntryView>, path: Seq<Seq<char>>) -> bool {
    exists|i: int, depth: int| is_prefix_at(entries, path, i, depth)
}

/// As `is_available`, counting only the entries before `i` and, of entry
/// `i` itself, the prefixes of at most `depth` labels.
pub open spec fn is_available_within(
    entries: Seq<CatalogEntryView>,
    path: Seq<Seq<char>>,
    i: int,
    depth: int,
) -> bool {
    exists|j: int, d: int| is_prefix_at(entries, path, j, d) && (j < i || (j == i && d <= depth))
}

// ---------------------------------------------------------------------------
// Helpers
// ---------------------------------------------------------------------------

/// Whether `labels` starts with all the labels of `path`.
pub fn starts_with(labels: &[String], path: &[String]) -> (yes: bool)
    ensures
        yes == path.deep_view().is_prefix_of(labels.deep_view()),
{
    if path.len() > labels.len() {
        return false;
    }
    let mut k: usize = 0;
    while k < path.len()
        invariant
            k <= path.len() <= labels.len(),
            forall|j: int| 0 <= j < k ==> path.deep_view()[j] == labels.deep_view()[j],
        decreases path.len() - k,
    {
        assert(path.deep_view()[k as int] == path[k as int]@);
        assert(labels.deep_view()[k as int] == labels[k as int]@);
        if !(path[k] == labels[k]) {
            assert(path.deep_view()[k as int] != labels.deep_view().subrange(
                0,
                path.deep_view().len() as int,
            )[k as int]);
            return false;
        }
        k = k + 1;
    }
    assert(path.deep_view() =~= labels.deep_view().subrange(0, path.deep_view().len() as int));
    true
}

/// The first `depth` labels of `labels`.
pub fn leading_labels(labels: &[String], depth: usize) -> (prefix: Vec<String>)
    requires
        depth <= labels@.len(),
    ensures
        prefix.deep_view() == labels.deep_view().take(depth as int),
{
    let mut prefix: Vec<String> = Vec::new();
    let mut k: usize = 0;
    while k < depth
        invariant
            k <= depth <= labels@.len(),
            prefix.deep_view() == labels.deep_view().take(k as int),
        decreases depth - k,
    {
        let ghost shorter = prefix;
        let label = labels[k].clone();
        proof {
            lemma_take_next(labels.deep_view(), k as int);
        }
        prefix.push(label);
        proof {
            lemma_deep_view_push(shorter, prefix, label);
        }
        k = k + 1;
    }
    prefix
}

/// Puts `path` at its place into an ascending list of paths, unless the
/// list holds it already.
pub fn insert_path(paths: &mut Vec<Vec<String>>, path: Vec<String>)
    requires
        strictly_ascending(old(paths).deep_view()),
    ensures
        strictly_ascending(final(paths).deep_view()),
        forall|p: Seq<Seq<char>>|
            final(paths).deep_view().contains(p) <==> (old(paths).deep_view().contains(p) || p
                == path.deep_view()),
{
    let ghost before = paths.deep_view();
    let ghost wanted = path.deep_view();
    let mut at: usize = 0;
    let mut present = false;
    let mut placed = false;
    while !placed && at < paths.len()
        invariant
            at <= paths.len(),
            before == paths.deep_view(),
            wanted == path.deep_view(),
            forall|k: int| 0 <= k < at ==> path_before(#[trigger] before[k], wanted),
            placed ==> at < paths.len(),
            placed && present ==> before[at as int] == wanted,
            placed && !present ==> path_before(wanted, before[at as int]),
            !placed ==> !present,
        decreases paths.len() - at + (if placed { 0int } else { 1int }),
    {
        assert(before[at as int] == paths[at as int].deep_view());
        match order_paths(paths[at].as_slice(), path.as_slice()) {
            PathOrder::Before => {
                at = at + 1;
            },
            PathOrder::Same => {
                present = true;
                placed = true;
            },
            PathOrder::After => {
                placed = true;
            },
        }
    }
    if present {
        proof {
            assert(before.contains(before[at as int]));
        }
    } else {
        let ghost shorter = *paths;
        paths.insert(at, path);
        proof {
            lemma_deep_view_insert(shorter, *paths, at as int, path);
            let after = paths.deep_view();
            assert(after == before.insert(at as int, wanted));
            assert forall|i: int, j: int| 0 <= i < j < after.len() implies path_before(
                after[i],
                after[j],
            ) by {
                if j < at {
                } else if j == at {
                    assert(after[i] == before[i]);
                } else if i < at {
                    assert(after[j] == before[j - 1]);
                    assert(after[i] == before[i]);
                } else if i == at {
                    assert(after[j] == before[j - 1]);
                    if j - 1 > at {
                        lemma_path_transitive(wanted, before[at as int], before[j - 1]);
                    }
                } else {
                    assert(after[i] == before[i - 1]);
                    assert(after[j] == before[j - 1]);
                }
            }
            assert forall|p: Seq<Seq<char>>| after.contains(p) <==> (before.contains(p) || p
                == wanted) by {
                if after.contains(p) {
                    let k = choose|k: int| 0 <= k < after.len() && after[k] == p;
                    if k < at {
                        assert(before[k] == p);
                    } else if k > at {
                        assert(before[k - 1] == p);
                    }
                }
                if before.contains(p) {
                    let k = choose|k: int| 0 <= k < before.len() && before[k] == p;
                    if k < at {
                        assert(after[k] == p);
                    } else {
                        assert(after[k + 1] == p);
                    }
                }
                if p == wanted {
                    assert(after[at as int] == p);
                }
            }
        }
    }
}

// ---------------------------------------------------------------------------
// The catalog
// ---------------------------------------------------------------------------

/// Compounds filed under category paths.
#[derive(Debug, PartialEq, Eq)]
pub struct Catalog {
    entries: Vec<CatalogEntry>,
}

impl View for Catalog {
    type V = Seq<CatalogEntryView>;

    closed spec fn view(&self) -> Seq<CatalogEntryView> {
        self.entries.deep_view()
    }
}

impl Clone for Catalog {
    fn clone(&self) -> (copy: Self)
        ensures
            copy@ == self@,
    {
        let mut entries: Vec<CatalogEntry> = Vec::new();
        let mut i: usize = 0;
        while i < self.entries.len()
            invariant
                i <= self.entries.len(),
                entries.deep_view() == self.entries.deep_view().take(i as int),
            decreases self.entries.len() - i,
        {
            let ghost shorter = entries;
            let entry = self.entries[i].clone();
            proof {
                lemma_take_next(self.entries.deep_view(), i as int);
            }
            entries.push(entry);
            proof {
                lemma_deep_view_push(shorter, entries, entry);
            }
            i = i + 1;
        }
        assert(self.entries.deep_view().take(self.entries.len() as int)
            == self.entries.deep_view());
        Catalog { entries }
    }
}

impl Catalog {
    /// A catalog of the given entries, in their order.
    pub fn new(entries: Vec<CatalogEntry>) -> (catalog: Catalog)
        ensures
            catalog@ == entries.deep_view(),
    {
        Catalog { entries }
    }

    /// The compounds of all entries, in the order of the entries.
    pub fn all_compounds(&self) -> (compounds: Vec<Compound>)
        ensures
            compounds.deep_view() == self@.map_values(|entry: CatalogEntryView| entry.compound),
    {
        let ghost pick = |entry: CatalogEntryView| entry.compound;
        let mut compounds: Vec<Compound> = Vec::new();
        let mut i: usize = 0;
        while i < self.entries.len()
            invariant
                i <= self.entries.len(),
                pick == |entry: CatalogEntryView| entry.compound,
                compounds.deep_view() == self@.take(i as int).map_values(pick),
            decreases self.entries.len() - i,
        {
            let ghost shorter = compounds;
            let compound = self.entries[i].compound.clone();
            compounds.push(compound);
            proof {
                lemma_deep_view_push(shorter, compounds, compound);
                lemma_take_next(self@, i as int);
                assert(self@.take(i + 1).map_values(pick) =~= self@.take(i as int).map_values(
                    pick,
                ).push(pick(self@[i as int])));
            }
            i = i + 1;
        }
        assert(self@.take(self.entries.len() as int) == self@);
        compounds
    }

    /// Every category under which something is filed: each non-empty prefix
    /// of the category path of each entry, once, in ascending order.
    pub fn available_paths(&self) -> (paths: Vec<Vec<String>>)
        ensures
            strictly_ascending(paths.deep_view()),
            forall|p: Seq<Seq<char>>| paths.deep_view().contains(p) ==> is_available(self@, p),
            forall|i: int, depth: int|
                0 <= i < self@.len() && 1 <= depth <= self@[i].categories.len()
                    ==> paths.deep_view().contains(#[trigger] self@[i].categories.take(depth)),
    {
        let mut paths: Vec<Vec<String>> = Vec::new();
        let mut i: usize = 0;
        while i < self.entries.len()
            invariant
                i <= self.entries.len(),
                strictly_ascending(paths.deep_view()),
                forall|p: Seq<Seq<char>>|
                    paths.deep_view().contains(p) <==> is_available_within(self@, p, i as int, 0),
            decreases self.entries.len() - i,
        {
            let entry = &self.entries[i];
            let mut depth: usize = 0;
            while depth < entry.categories.len()
                invariant
                    i < self.entries.len(),
                    *entry == self.entries[i as int],
                    depth <= entry.categories.len(),
                    strictly_ascending(paths.deep_view()),
                    forall|p: Seq<Seq<char>>|
                        paths.deep_view().contains(p) <==> is_available_within(
                            self@,
                            p,
                            i as int,
                            depth as int,
                        ),
                decreases entry.categories.len() - depth,
            {
                depth = depth + 1;
                let prefix = leading_labels(entry.categories.as_slice(), depth);
                let ghost before = paths.deep_view();
                insert_path(&mut paths, prefix);
                proof {
                    let added = prefix.deep_view();
                    assert(is_prefix_at(self@, added, i as int, depth as int));
                    assert forall|p: Seq<Seq<char>>|
                        paths.deep_view().contains(p) <==> is_available_within(
                            self@,
                            p,
                            i as int,
                            depth as int,
                        ) by {
                        if is_available_within(self@, p, i as int, depth as int) {
                            let (j, d) = choose|j: int, d: int|
                                is_prefix_at(self@, p, j, d) && (j < i || (j == i && d <= depth));
                            if j == i && d == depth {
                                assert(p == added);
                            } else {
                                assert(is_available_within(self@, p, i as int, depth - 1));
                            }
                        }
                        if before.contains(p) {
                            let (j, d) = choose|j: int, d: int|
                                is_prefix_at(self@, p, j, d) && (j < i || (j == i && d <= depth
                                    - 1));
                            assert(is_prefix_at(self@, p, j, d) && (j < i || (j == i && d
                                <= depth)));
                        }
                    }
                }
            }
            proof {
                assert forall|p: Seq<Seq<char>>|
                    is_available_within(self@, p, i as int, depth as int)
                        <==> is_available_within(self@, p, i + 1, 0) by {
                    if is_available_within(self@, p, i as int, depth as int) {
                        let (j, d) = choose|j: int, d: int|
                            is_prefix_at(self@, p, j, d) && (j < i || (j == i && d <= depth));
                        assert(is_prefix_at(self@, p, j, d) && (j < i + 1 || (j == i + 1 && d
                            <= 0)));
                    }
                    if is_available_within(self@, p, i + 1, 0) {
                        let (j, d) = choose|j: int, d: int|
                            is_prefix_at(self@, p, j, d) && (j < i + 1 || (j == i + 1 && d <= 0));
                        assert(is_prefix_at(self@, p, j, d) && (j < i || (j == i && d <= depth)));
                    }
                }
            }
            i = i + 1;
        }
        proof {
            assert forall|j: int, d: int|
                0 <= j < self@.len() && 1 <= d <= self@[j].categories.len()
                    implies paths.deep_view().contains(#[trigger] self@[j].categories.take(d)) by {
                let p = self@[j].categories.take(d);
                assert(is_prefix_at(self@, p, j, d) && (j < self@.len() || (j == self@.len() && d
                    <= 0)));
                assert(is_available_within(self@, p, self@.len() as int, 0));
            }
        }
        paths
    }

    /// The compounds of the entries filed under `path`, in the order of the
    /// entries.  Fails with [`CatalogError::EmptyPath`] for a path without
    /// labels, and with [`CatalogError::CategoryNotFound`], which carries
    /// the path on one line, when nothing is filed under it.
    pub fn compounds_for(&self, path: &[String]) -> (result: Result<Vec<Compound>, CatalogError>)
        ensures
            path@.len() == 0 ==> result matches Err(CatalogError::EmptyPath),
            path@.len() > 0 && matching_compounds(self@, path.deep_view()).len() == 0 ==> (
            result matches Err(CatalogError::CategoryNotFound { path: line }) && line@ == joined(
                path.deep_view(),
                " / "@,
            )),
            path@.len() > 0 && matching_compounds(self@, path.deep_view()).len() > 0 ==> (
            result matches Ok(compounds) && compounds.deep_view() == matching_compounds(
                self@,
                path.deep_view(),
            )),
    {
        if path.len() == 0 {
            return Err(CatalogError::EmptyPath);
        }
        let ghost wanted = path.deep_view();
        let ghost under = |entry: CatalogEntryView| filed_under(entry, wanted);
        let ghost pick = |entry: CatalogEntryView| entry.compound;
        let mut matches: Vec<Compound> = Vec::new();
        let mut i: usize = 0;
        assert(self@.take(0).filter(under) =~= Seq::<CatalogEntryView>::empty()) by {
            assert(self@.take(0) =~= Seq::<CatalogEntryView>::empty());
        }
        while i < self.entries.len()
            invariant
                i <= self.entries.len(),
                wanted == path.deep_view(),
                under == |entry: CatalogEntryView| filed_under(entry, wanted),
                pick == |entry: CatalogEntryView| entry.compound,
                matches.deep_view() == self@.take(i as int).filter(under).map_values(pick),
            decreases self.entries.len() - i,
        {
            let entry = &self.entries[i];
            proof {
                lemma_take_next(self@, i as int);
                self@.take(i as int).lemma_filter_push(self@[i as int], under);
            }
            if starts_with(entry.categories.as_slice(), path) {
                let ghost shorter = matches;
                let compound = entry.compound.clone();
                matches.push(compound);
                proof {
                    lemma_deep_view_push(shorter, matches, compound);
                    assert(self@.take(i + 1).filter(under).map_values(pick) =~= self@.take(
                        i as int,
                    ).filter(under).map_values(pick).push(pick(self@[i as int])));
                }
            }
            i = i + 1;
        }
        assert(self@.take(self.entries.len() as int) == self@);
        if matches.len() == 0 {
            return Err(CatalogError::CategoryNotFound { path: join(path, " / ") });
        }
        Ok(matches)
    }
}

// ---------------------------------------------------------------------------
// Laws of the category lookup
// ---------------------------------------------------------------------------

/// The entries filed under `path`, in their order.
pub open spec fn matching_entries(entries: Seq<CatalogEntryView>, path: Seq<Seq<char>>) -> Seq<
    CatalogEntryView,
> {
    entries.filter(|entry: CatalogEntryView| filed_under(entry, path))
}

/// The lookup yields exactly the compounds filed under the path: each
/// compound it yields belongs to an entry whose category path starts with
/// the path asked for, and each such entry has its compound among them.
pub proof fn lemma_matching_compounds(entries: Seq<CatalogEntryView>, path: Seq<Seq<char>>)
    ensures
        matching_compounds(entries, path).len() == matching_entries(entries, path).len(),
        matching_compounds(entries, path).len() <= entries.len(),
        forall|k: int|
            0 <= k < matching_compounds(entries, path).len() ==> exists|i: int|
                0 <= i < entries.len() && filed_under(#[trigger] entries[i], path)
                    && #[trigger] matching_compounds(entries, path)[k] == entries[i].compound,
        forall|i: int|
            0 <= i < entries.len() && filed_under(#[trigger] entries[i], path)
                ==> matching_compounds(entries, path).contains(entries[i].compound),
{
    let under = |entry: CatalogEntryView| filed_under(entry, path);
    let kept = entries.filter(under);
    let found = matching_compounds(entries, path);
    entries.lemma_filter_len(under);
    assert forall|k: int| 0 <= k < found.len() implies exists|i: int|
        0 <= i < entries.len() && filed_under(#[trigger] entries[i], path) && #[trigger] found[k]
            == entries[i].compound by {
        entries.lemma_filter_pred(under, k);
        assert(kept.contains(kept[k]));
        entries.lemma_filter_contains_rev(under, kept[k]);
        let i = choose|i: int| 0 <= i < entries.len() && entries[i] == kept[k];
        assert(filed_under(entries[i], path) && found[k] == entries[i].compound);
    }
    assert forall|i: int|
        0 <= i < entries.len() && filed_under(#[trigger] entries[i], path) implies found.contains(
        entries[i].compound,
    ) by {
        entries.lemma_filter_contains(under, i);
        let k = choose|k: int| 0 <= k < kept.len() && kept[k] == entries[i];
        assert(found[k] == entries[i].compound);
    }
}

/// A catalog lists every prefix of the category path of each of its
/// entries, and nothing else.
pub proof fn lemma_available_is_prefix(entries: Seq<CatalogEntryView>, path: Seq<Seq<char>>)
    ensures
        is_available(entries, path) <==> path.len() > 0 && exists|i: int|
            0 <= i < entries.len() && path.is_prefix_of(#[trigger] entries[i].categories),
{
    if is_available(entries, path) {
        let (i, depth) = choose|i: int, depth: int| is_prefix_at(entries, path, i, depth);
        assert(path.is_prefix_of(entries[i].categories));
    }
    if path.len() > 0 && exists|i: int|
        0 <= i < entries.len() && path.is_prefix_of(#[trigger] entries[i].categories) {
        let i = choose|i: int|
            0 <= i < entries.len() && path.is_prefix_of(#[trigger] entries[i].categories);
        assert(path =~= entries[i].categories.take(path.len() as int));
        assert(is_prefix_at(entries, path, i, path.len() as int));
    }
}

} // verus!
