//! Gathering a catalog from a tree of directories, as a state machine.
//!
//! The nesting of the directories is the category path: every directory on
//! the way down adds its name as one label.  A data file contributes its
//! compounds under the path of the directory it lies in.  The index file is
//! no data file and is passed over wherever it lies.  A data file at the root
//! has no category and is refused.
//!
//! Reading directories and files is left to the caller.  The caller reports
//! what it found as a [`WalkEvent`]; [`CatalogWalk::step`] answers with the
//! [`WalkAction`] to take next.

use crate::catalog::{Catalog, CatalogEntry, CatalogEntryView};
use crate::compound::{clone_labels, Compound, CompoundView};
use crate::load_error::{CatalogLoadError, CatalogLoadErrorView};
use crate::views::{lemma_deep_view_push, lemma_take_next};
use vstd::prelude::*;

verus! {

// ---------------------------------------------------------------------------
// Events and actions
// ---------------------------------------------------------------------------

/// What the caller found since the last step.
#[derive(Debug)]
pub enum WalkEvent {
    /// The directory being listed holds a subdirectory.  `name` is its
    /// name, absent when it has none that is text.
    Directory { name: Option<String> },
    /// The directory being listed holds a file, with its name and the
    /// extension of that name, each absent when it is not text.
    File { name: Option<String>, extension: Option<String> },
    /// The data file that was to be loaded holds these compounds.
    Compounds { compounds: Vec<Compound> },
    /// The directory being listed holds nothing more.
    EndOfDirectory,
    /// A directory or file at `path` could not be read.
    ReadFailed { path: String, cause: String },
    /// The data file at `path` does not hold a list of compounds.
    ParseFailed { path: String, cause: String },
}

/// What a [`WalkEvent`] holds, as text.
pub ghost enum WalkEventView {
    Directory { name: Option<Seq<char>> },
    File { name: Option<Seq<char>>, extension: Option<Seq<char>> },
    Compounds { compounds: Seq<CompoundView> },
    EndOfDirectory,
    ReadFailed { path: Seq<char>, cause: Seq<char> },
    ParseFailed { path: Seq<char>, cause: Seq<char> },
}

impl View for WalkEvent {
    type V = WalkEventView;

    open spec fn view(&self) -> WalkEventView {
        match self {
            WalkEvent::Directory { name } => WalkEventView::Directory { name: name.deep_view() },
            WalkEvent::File { name, extension } => WalkEventView::File {
                name: name.deep_view(),
                extension: extension.deep_view(),
            },
            WalkEvent::Compounds { compounds } => WalkEventView::Compounds {
                compounds: compounds.deep_view(),
            },
            WalkEvent::EndOfDirectory => WalkEventView::EndOfDirectory,
            WalkEvent::ReadFailed { path, cause } => WalkEventView::ReadFailed {
                path: path@,
                cause: cause@,
            },
            WalkEvent::ParseFailed { path, cause } => WalkEventView::ParseFailed {
                path: path@,
                cause: cause@,
            },
        }
    }
}

/// What the caller is to do next.
#[derive(Debug)]
pub enum WalkAction {
    /// Report the next item of the directory being listed, or its end.
    ReadNext,
    /// Start listing the subdirectory just reported.
    Descend,
    /// Read the file just reported and report the compounds it holds.
    Load,
    /// The walk is complete.
    Done,
    /// The walk has failed.
    Fail(CatalogLoadError),
}

/// What a [`WalkAction`] holds, as text.
pub ghost enum WalkActionView {
    ReadNext,
    Descend,
    Load,
    Done,
    Fail(CatalogLoadErrorView),
}

impl View for WalkAction {
    type V = WalkActionView;

    open spec fn view(&self) -> WalkActionView {
        match self {
            WalkAction::ReadNext => WalkActionView::ReadNext,
            WalkAction::Descend => WalkActionView::Descend,
            WalkAction::Load => WalkActionView::Load,
            WalkAction::Done => WalkActionView::Done,
            WalkAction::Fail(error) => WalkActionView::Fail(error@),
        }
    }
}

// ---------------------------------------------------------------------------
// The transition
// ---------------------------------------------------------------------------

/// The state of a walk: the category path of every directory that is being
/// listed, the outermost first, and the entries gathered so far.  A walk
/// with no directory left is over.
pub ghost struct CatalogWalkView {
    pub open: Seq<Seq<Seq<char>>>,
    pub entries: Seq<CatalogEntryView>,
}

/// The extension that marks a data file.
pub open spec fn data_extension() -> Seq<char> {
    "json"@
}

/// The name of the index file, which is no data file.
pub open spec fn index_file_name() -> Seq<char> {
    "index.json"@
}

/// The category path of a subdirectory of the directory filed under
/// `categories`.
pub open spec fn child_categories(categories: Seq<Seq<char>>, name: Option<Seq<char>>) -> Seq<
    Seq<char>,
> {
    match name {
        Some(label) => categories.push(label),
        None => categories,
    }
}

/// The entries that file `compounds` under `categories`.
pub open spec fn filed(compounds: Seq<CompoundView>, categories: Seq<Seq<char>>) -> Seq<
    CatalogEntryView,
> {
    compounds.map_values(
        |compound: CompoundView| CatalogEntryView { compound: compound, categories: categories },
    )
}

/// The walk after `event`, and what the caller is to do next.
pub open spec fn walk_step(state: CatalogWalkView, event: WalkEventView) -> (
    CatalogWalkView,
    WalkActionView,
) {
    let over = CatalogWalkView { open: Seq::empty(), entries: state.entries };
    let no_category = WalkActionView::Fail(CatalogLoadErrorView::EmptyCategoryPath);
    if state.open.len() == 0 {
        (state, WalkActionView::Done)
    } else {
        let current = state.open.last();
        match event {
            WalkEventView::Directory { name } => (
                CatalogWalkView {
                    open: state.open.push(child_categories(current, name)),
                    entries: state.entries,
                },
                WalkActionView::Descend,
            ),
            WalkEventView::File { name, extension } => if extension != Some(data_extension())
                || name == Some(index_file_name()) {
                (state, WalkActionView::ReadNext)
            } else if current.len() > 0 {
                (state, WalkActionView::Load)
            } else {
                (over, no_category)
            },
            WalkEventView::Compounds { compounds } => if current.len() > 0 {
                (
                    CatalogWalkView {
                        open: state.open,
                        entries: state.entries + filed(compounds, current),
                    },
                    WalkActionView::ReadNext,
                )
            } else {
                (over, no_category)
            },
            WalkEventView::EndOfDirectory => (
                CatalogWalkView { open: state.open.drop_last(), entries: state.entries },
                if state.open.len() == 1 {
                    WalkActionView::Done
                } else {
                    WalkActionView::ReadNext
                },
            ),
            WalkEventView::ReadFailed { path, cause } => (
                over,
                WalkActionView::Fail(CatalogLoadErrorView::ReadError { path: path, source: cause }),
            ),
            WalkEventView::ParseFailed { path, cause } => (
                over,
                WalkActionView::Fail(
                    CatalogLoadErrorView::ParseError { path: path, source: cause },
                ),
            ),
        }
    }
}

/// A walk in progress.
#[derive(Debug)]
pub struct CatalogWalk {
    open: Vec<Vec<String>>,
    entries: Vec<CatalogEntry>,
}

impl View for CatalogWalk {
    type V = CatalogWalkView;

    closed spec fn view(&self) -> CatalogWalkView {
        CatalogWalkView { open: self.open.deep_view(), entries: self.entries.deep_view() }
    }
}

/// Whether `text` is present and reads `wanted`.
fn reads(text: &Option<String>, wanted: &str) -> (yes: bool)
    ensures
        yes == (text.deep_view() == Some(wanted@)),
{
    match text {
        Some(inner) => *inner == String::from_str(wanted),
        None => false,
    }
}

impl CatalogWalk {
    /// A walk that is about to list the root directory, with nothing
    /// gathered yet.
    pub fn begin() -> (walk: CatalogWalk)
        ensures
            walk@ == (CatalogWalkView {
                open: seq![Seq::<Seq<char>>::empty()],
                entries: Seq::empty(),
            }),
    {
        let mut open: Vec<Vec<String>> = Vec::new();
        let root: Vec<String> = Vec::new();
        let ghost none = open;
        open.push(root);
        let entries: Vec<CatalogEntry> = Vec::new();
        proof {
            lemma_deep_view_push(none, open, root);
            assert(root.deep_view() =~= Seq::<Seq<char>>::empty());
            assert(open.deep_view() =~= seq![Seq::<Seq<char>>::empty()]);
            assert(entries.deep_view() =~= Seq::<CatalogEntryView>::empty());
        }
        CatalogWalk { open, entries }
    }

    /// Whether the walk is over: completed or failed.
    pub fn is_over(&self) -> (over: bool)
        ensures
            over == (self@.open.len() == 0),
    {
        self.open.len() == 0
    }

    /// Takes in what the caller found and says what to do next.
    pub fn step(&mut self, event: WalkEvent) -> (action: WalkAction)
        ensures
            (final(self)@, action@) == walk_step(old(self)@, event@),
    {
        if self.open.len() == 0 {
            return WalkAction::Done;
        }
        let depth = self.open.len();
        let ghost before = self@;
        let ghost current = before.open.last();
        assert(current == self.open[depth - 1].deep_view());
        match event {
            WalkEvent::Directory { name } => {
                let mut categories = clone_labels(self.open[depth - 1].as_slice());
                match name {
                    Some(label) => {
                        let ghost shorter = categories;
                        categories.push(label);
                        proof {
                            lemma_deep_view_push(shorter, categories, label);
                        }
                    },
                    None => {},
                }
                let ghost outer = self.open;
                self.open.push(categories);
                proof {
                    lemma_deep_view_push(outer, self.open, categories);
                }
                WalkAction::Descend
            },
            WalkEvent::File { name, extension } => {
                if !reads(&extension, "json") || reads(&name, "index.json") {
                    WalkAction::ReadNext
                } else if self.open[depth - 1].len() > 0 {
                    WalkAction::Load
                } else {
                    self.open.clear();
                    assert(self.open.deep_view() =~= Seq::<Seq<Seq<char>>>::empty());
                    WalkAction::Fail(CatalogLoadError::EmptyCategoryPath)
                }
            },
            WalkEvent::Compounds { compounds } => {
                if self.open[depth - 1].len() > 0 {
                    let ghost given = self.entries.deep_view();
                    let mut i: usize = 0;
                    assert(compounds.deep_view().take(0) =~= Seq::<CompoundView>::empty());
                    assert(given + filed(compounds.deep_view().take(0), current) =~= given);
                    while i < compounds.len()
                        invariant
                            i <= compounds.len(),
                            depth == self.open.len(),
                            depth > 0,
                            self.open.deep_view() == before.open,
                            current == self.open[depth - 1].deep_view(),
                            self.entries.deep_view() == given + filed(
                                compounds.deep_view().take(i as int),
                                current,
                            ),
                        decreases compounds.len() - i,
                    {
                        let ghost shorter = self.entries;
                        let entry = CatalogEntry {
                            compound: compounds[i].clone(),
                            categories: clone_labels(self.open[depth - 1].as_slice()),
                        };
                        self.entries.push(entry);
                        proof {
                            lemma_deep_view_push(shorter, self.entries, entry);
                            lemma_take_next(compounds.deep_view(), i as int);
                            assert(filed(compounds.deep_view().take(i + 1), current) =~= filed(
                                compounds.deep_view().take(i as int),
                                current,
                            ).push(
                                CatalogEntryView {
                                    compound: compounds.deep_view()[i as int],
                                    categories: current,
                                },
                            ));
                        }
                        i = i + 1;
                    }
                    assert(compounds.deep_view().take(compounds.len() as int)
                        =~= compounds.deep_view());
                    WalkAction::ReadNext
                } else {
                    self.open.clear();
                    assert(self.open.deep_view() =~= Seq::<Seq<Seq<char>>>::empty());
                    WalkAction::Fail(CatalogLoadError::EmptyCategoryPath)
                }
            },
            WalkEvent::EndOfDirectory => {
                self.open.pop();
                assert(self.open.deep_view() =~= before.open.drop_last());
                if self.open.len() == 0 {
                    WalkAction::Done
                } else {
                    WalkAction::ReadNext
                }
            },
            WalkEvent::ReadFailed { path, cause } => {
                self.open.clear();
                assert(self.open.deep_view() =~= Seq::<Seq<Seq<char>>>::empty());
                WalkAction::Fail(CatalogLoadError::ReadError { path: path, source: cause })
            },
            WalkEvent::ParseFailed { path, cause } => {
                self.open.clear();
                assert(self.open.deep_view() =~= Seq::<Seq<Seq<char>>>::empty());
                WalkAction::Fail(CatalogLoadError::ParseError { path: path, source: cause })
            },
        }
    }

    /// The catalog of the entries gathered, in the order in which they came.
    pub fn into_catalog(self) -> (catalog: Catalog)
        ensures
            catalog@ == self@.entries,
    {
        Catalog::new(self.entries)
    }
}

// ---------------------------------------------------------------------------
// What a walk gathers
// ---------------------------------------------------------------------------

/// What lies in a directory, as far as the walk is concerned.
pub ghost enum DirectoryItem {
    /// A subdirectory, with what lies in it.
    Directory { name: Option<Seq<char>>, items: Seq<DirectoryItem> },
    /// A data file that can be read, with the compounds it holds.
    Data { name: Option<Seq<char>>, compounds: Seq<CompoundView> },
    /// Any other file.
    Other { name: Option<Seq<char>>, extension: Option<Seq<char>> },
}

/// Whether a file with this name and extension is passed over.
pub open spec fn passed_over(name: Option<Seq<char>>, extension: Option<Seq<char>>) -> bool {
    extension != Some(data_extension()) || name == Some(index_file_name())
}

/// The item can be gathered under `categories`: its data files have a
/// category and are not named like the index file, and its other files are
/// such as the walk passes over.
pub open spec fn item_gatherable(item: DirectoryItem, categories: Seq<Seq<char>>) -> bool
    decreases item,
{
    match item {
        DirectoryItem::Directory { name, items } => items_gatherable(
            items,
            child_categories(categories, name),
        ),
        DirectoryItem::Data { name, compounds } => categories.len() > 0 && !passed_over(
            name,
            Some(data_extension()),
        ),
        DirectoryItem::Other { name, extension } => passed_over(name, extension),
    }
}

/// All the items can be gathered under `categories`.
pub open spec fn items_gatherable(items: Seq<DirectoryItem>, categories: Seq<Seq<char>>) -> bool
    decreases items,
{
    items.len() > 0 ==> items_gatherable(items.drop_last(), categories) && item_gatherable(
        items.last(),
        categories,
    )
}

/// The entries that one item contributes under `categories`: a data file
/// its compounds, a directory what its items contribute under the path that
/// its name extends.
pub open spec fn item_entries(item: DirectoryItem, categories: Seq<Seq<char>>) -> Seq<
    CatalogEntryView,
>
    decreases item,
{
    match item {
        DirectoryItem::Directory { name, items } => items_entries(
            items,
            child_categories(categories, name),
        ),
        DirectoryItem::Data { name, compounds } => filed(compounds, categories),
        DirectoryItem::Other { name, extension } => Seq::empty(),
    }
}

/// The entries that the items of a directory contribute, item after item.
pub open spec fn items_entries(items: Seq<DirectoryItem>, categories: Seq<Seq<char>>) -> Seq<
    CatalogEntryView,
>
    decreases items,
{
    if items.len() == 0 {
        Seq::empty()
    } else {
        items_entries(items.drop_last(), categories) + item_entries(items.last(), categories)
    }
}

/// What a caller reports of one item: a directory, then what lies in it,
/// then its end; a data file, then its compounds; or just a file.
pub open spec fn item_events(item: DirectoryItem) -> Seq<WalkEventView>
    decreases item,
{
    match item {
        DirectoryItem::Directory { name, items } => seq![WalkEventView::Directory { name: name }]
            + items_events(items) + seq![WalkEventView::EndOfDirectory],
        DirectoryItem::Data { name, compounds } => seq![
            WalkEventView::File { name: name, extension: Some(data_extension()) },
            WalkEventView::Compounds { compounds: compounds },
        ],
        DirectoryItem::Other { name, extension } => seq![
            WalkEventView::File { name: name, extension: extension },
        ],
    }
}

/// What a caller reports of the items of a directory, in their order.
pub open spec fn items_events(items: Seq<DirectoryItem>) -> Seq<WalkEventView>
    decreases items,
{
    if items.len() == 0 {
        Seq::empty()
    } else {
        items_events(items.drop_last()) + item_events(items.last())
    }
}

/// The walk after a run of events.
pub open spec fn replay(state: CatalogWalkView, events: Seq<WalkEventView>) -> CatalogWalkView
    decreases events.len(),
{
    if events.len() == 0 {
        state
    } else {
        walk_step(replay(state, events.drop_last()), events.last()).0
    }
}

/// Replaying two runs of events one after the other is replaying them
/// joined.
pub proof fn lemma_replay_joined(
    state: CatalogWalkView,
    first: Seq<WalkEventView>,
    second: Seq<WalkEventView>,
)
    ensures
        replay(state, first + second) == replay(replay(state, first), second),
    decreases second.len(),
{
    if second.len() == 0 {
        assert(first + second =~= first);
    } else {
        assert((first + second).drop_last() =~= first + second.drop_last());
        assert((first + second).last() == second.last());
        lemma_replay_joined(state, first, second.drop_last());
    }
}

/// Replaying one event is one step.
pub proof fn lemma_replay_one(state: CatalogWalkView, event: WalkEventView)
    ensures
        replay(state, seq![event]) == walk_step(state, event).0,
{
    assert(seq![event].drop_last() =~= Seq::<WalkEventView>::empty());
    assert(replay(state, seq![event].drop_last()) == state);
}

/// Reporting one item to a walk that lists a directory filed under
/// `categories` adds the entries of the item and leaves the walk in that
/// directory.
pub proof fn lemma_walk_gathers_item(
    state: CatalogWalkView,
    item: DirectoryItem,
    categories: Seq<Seq<char>>,
)
    requires
        state.open.len() > 0,
        state.open.last() == categories,
        item_gatherable(item, categories),
    ensures
        replay(state, item_events(item)) == (CatalogWalkView {
            open: state.open,
            entries: state.entries + item_entries(item, categories),
        }),
    decreases item, 0int,
{
    match item {
        DirectoryItem::Directory { name, items } => {
            let enter = WalkEventView::Directory { name: name };
            let below = child_categories(categories, name);
            let entered = walk_step(state, enter).0;
            lemma_replay_one(state, enter);
            lemma_walk_gathers_items(entered, items, below);
            let listed = replay(entered, items_events(items));
            lemma_replay_joined(state, seq![enter], items_events(items));
            lemma_replay_one(listed, WalkEventView::EndOfDirectory);
            lemma_replay_joined(
                state,
                seq![enter] + items_events(items),
                seq![WalkEventView::EndOfDirectory],
            );
            assert(listed.open.drop_last() =~= state.open);
        },
        DirectoryItem::Data { name, compounds } => {
            let meet = WalkEventView::File { name: name, extension: Some(data_extension()) };
            let load = WalkEventView::Compounds { compounds: compounds };
            lemma_replay_one(state, meet);
            lemma_replay_one(state, load);
            lemma_replay_joined(state, seq![meet], seq![load]);
            assert(seq![meet] + seq![load] =~= item_events(item));
        },
        DirectoryItem::Other { name, extension } => {
            lemma_replay_one(state, WalkEventView::File { name: name, extension: extension });
            assert(state.entries + item_entries(item, categories) =~= state.entries);
        },
    }
}

/// Reporting the items of a directory filed under `categories` adds their
/// entries, in order, and leaves the walk in that directory.
pub proof fn lemma_walk_gathers_items(
    state: CatalogWalkView,
    items: Seq<DirectoryItem>,
    categories: Seq<Seq<char>>,
)
    requires
        state.open.len() > 0,
        state.open.last() == categories,
        items_gatherable(items, categories),
    ensures
        replay(state, items_events(items)) == (CatalogWalkView {
            open: state.open,
            entries: state.entries + items_entries(items, categories),
        }),
    decreases items, 1int,
{
    if items.len() == 0 {
        assert(state.entries + items_entries(items, categories) =~= state.entries);
    } else {
        let earlier = items.drop_last();
        lemma_walk_gathers_items(state, earlier, categories);
        let so_far = replay(state, items_events(earlier));
        lemma_walk_gathers_item(so_far, items.last(), categories);
        lemma_replay_joined(state, items_events(earlier), item_events(items.last()));
        assert(state.entries + items_entries(earlier, categories) + item_entries(
            items.last(),
            categories,
        ) =~= state.entries + items_entries(items, categories));
    }
}

/// A walk over a whole tree gathers exactly the compounds of its data
/// files, each under the names of the directories that lead to its file, in
/// the order in which they are reported, and then is complete.
pub proof fn lemma_walk_gathers_tree(items: Seq<DirectoryItem>)
    requires
        items_gatherable(items, Seq::empty()),
    ensures
        ({
            let begun = CatalogWalkView {
                open: seq![Seq::<Seq<char>>::empty()],
                entries: Seq::empty(),
            };
            let listed = replay(begun, items_events(items));
            &&& walk_step(listed, WalkEventView::EndOfDirectory) == (
                CatalogWalkView {
                    open: Seq::empty(),
                    entries: items_entries(items, Seq::empty()),
                },
                WalkActionView::Done,
            )
        }),
{
    let begun = CatalogWalkView {
        open: seq![Seq::<Seq<char>>::empty()],
        entries: Seq::empty(),
    };
    lemma_walk_gathers_items(begun, items, Seq::empty());
    let listed = replay(begun, items_events(items));
    assert(listed.open.drop_last() =~= Seq::<Seq<Seq<char>>>::empty());
    assert(begun.entries + items_entries(items, Seq::empty()) =~= items_entries(
        items,
        Seq::empty(),
    ));
}

} // verus!
