//! The catalog manifest: a tree of categories that says where each category's
//! data file lives, and its flattening into the list of selectable leaves.
//!
//! A node that names a file is a leaf, whether or not it has children.  The
//! path of a leaf is the chain of labels from a root down to its node.

use crate::compound::{clone_labels, clone_optional};
use crate::views::lemma_deep_view_push;
use vstd::prelude::*;

verus! {

// ---------------------------------------------------------------------------
// Types
// ---------------------------------------------------------------------------

/// The roots of the category tree.
#[derive(Debug, PartialEq, Eq)]
pub struct CatalogManifest {
    pub roots: Vec<CatalogNode>,
}

/// One category of the tree.
#[derive(Debug, PartialEq, Eq)]
pub struct CatalogNode {
    /// Display name; the label this node adds to the path of the leaves
    /// at and below it.
    pub label: String,
    /// Machine-safe identifier.
    pub slug: String,
    /// The data file of this category, when it is selectable.
    pub file: Option<String>,
    /// The categories below this one.
    pub children: Vec<CatalogNode>,
}

/// A selectable dataset: the path of labels that leads to it, and its file.
#[derive(Debug, PartialEq, Eq)]
pub struct CatalogLeaf {
    pub path: Vec<String>,
    pub file: String,
}

/// What a [`CatalogLeaf`] holds, as text.
pub ghost struct CatalogLeafView {
    pub path: Seq<Seq<char>>,
    pub file: Seq<char>,
}

impl View for CatalogLeaf {
    type V = CatalogLeafView;

    open spec fn view(&self) -> CatalogLeafView {
        CatalogLeafView { path: self.path.deep_view(), file: self.file@ }
    }
}

impl DeepView for CatalogLeaf {
    type V = CatalogLeafView;

    open spec fn deep_view(&self) -> CatalogLeafView {
        self@
    }
}

impl Clone for CatalogLeaf {
    fn clone(&self) -> (copy: Self)
        ensures
            copy@ == self@,
    {
        CatalogLeaf { path: clone_labels(self.path.as_slice()), file: self.file.clone() }
    }
}

// ---------------------------------------------------------------------------
// Specification of the flattening
// ---------------------------------------------------------------------------

/// The leaf a node contributes by itself when it is reached by `path`: one
/// if it names a file, none otherwise.
pub open spec fn own_leaf(node: CatalogNode, path: Seq<Seq<char>>) -> Seq<CatalogLeafView> {
    match node.file {
        Some(file) => seq![CatalogLeafView { path: path, file: file@ }],
        None => Seq::empty(),
    }
}

/// The leaves at and below `node`, which hangs under the labels `prefix`:
/// its own leaf first, then those of its children in their order, all under
/// the path that `node` extends by its label.
pub open spec fn node_leaves(node: CatalogNode, prefix: Seq<Seq<char>>) -> Seq<CatalogLeafView>
    decreases node,
{
    let path = prefix.push(node.label@);
    own_leaf(node, path) + forest_leaves(node.children@, path)
}

/// The leaves of the trees `nodes`, which all hang under the labels
/// `prefix`, tree after tree.
pub open spec fn forest_leaves(nodes: Seq<CatalogNode>, prefix: Seq<Seq<char>>) -> Seq<
    CatalogLeafView,
>
    decreases nodes,
{
    if nodes.len() == 0 {
        Seq::empty()
    } else {
        forest_leaves(nodes.drop_last(), prefix) + node_leaves(nodes.last(), prefix)
    }
}

impl CatalogManifest {
    /// The leaves of the whole manifest, in depth-first order.
    pub open spec fn spec_leaves(self) -> Seq<CatalogLeafView> {
        forest_leaves(self.roots@, Seq::empty())
    }
}

// ---------------------------------------------------------------------------
// Flattening
// ---------------------------------------------------------------------------

/// Appends to `leaves` the leaves at and below `node`, which hangs under
/// the labels in `prefix`.  The label of `node` is pushed onto `prefix` for
/// the descent and taken off again before returning.
pub fn gather_leaves(node: &CatalogNode, prefix: &mut Vec<String>, leaves: &mut Vec<CatalogLeaf>)
    ensures
        final(prefix).deep_view() == old(prefix).deep_view(),
        final(leaves).deep_view() == old(leaves).deep_view() + node_leaves(
            *node,
            old(prefix).deep_view(),
        ),
    decreases node,
{
    let ghost above = prefix.deep_view();
    let ghost given = leaves.deep_view();
    let ghost prefix_before = *prefix;
    let label = node.label.clone();
    prefix.push(label);
    let ghost path = prefix.deep_view();
    proof {
        lemma_deep_view_push(prefix_before, *prefix, label);
        assert(path == above.push(node.label@));
    }
    match &node.file {
        Some(file) => {
            let ghost shorter = *leaves;
            let leaf = CatalogLeaf { path: clone_labels(prefix.as_slice()), file: file.clone() };
            leaves.push(leaf);
            proof {
                lemma_deep_view_push(shorter, *leaves, leaf);
                assert(leaves.deep_view() =~= given + own_leaf(*node, path));
            }
        },
        None => {
            assert(leaves.deep_view() =~= given + own_leaf(*node, path));
        },
    }
    let ghost with_own = leaves.deep_view();
    let mut i: usize = 0;
    assert(node.children@.take(0) =~= Seq::<CatalogNode>::empty());
    assert(with_own + forest_leaves(node.children@.take(0), path) =~= with_own);
    while i < node.children.len()
        invariant
            i <= node.children.len(),
            prefix.deep_view() == path,
            leaves.deep_view() == with_own + forest_leaves(node.children@.take(i as int), path),
        decreases node.children.len() - i,
    {
        let ghost so_far = leaves.deep_view();
        gather_leaves(&node.children[i], prefix, leaves);
        proof {
            let upto = node.children@.take(i + 1);
            assert(upto.drop_last() =~= node.children@.take(i as int));
            assert(upto.last() == node.children@[i as int]);
            assert(leaves.deep_view() =~= with_own + forest_leaves(upto, path));
        }
        i = i + 1;
    }
    proof {
        assert(node.children@.take(node.children.len() as int) =~= node.children@);
        assert(leaves.deep_view() =~= given + node_leaves(*node, above));
    }
    let ghost prefix_pushed = *prefix;
    prefix.pop();
    proof {
        assert(prefix_pushed.deep_view().len() == above.len() + 1);
        assert forall|k: int| 0 <= k < above.len() implies prefix.deep_view()[k] == above[k] by {
            assert(prefix@[k] == prefix_pushed@[k]);
            assert(prefix_pushed.deep_view()[k] == path[k]);
        }
        assert(prefix.deep_view() =~= above);
    }
}

impl CatalogManifest {
    /// Flattens the manifest into its leaves: one for every node that names
    /// a file, in depth-first order, each with the chain of labels from its
    /// root down to its node.
    pub fn leaves(&self) -> (leaves: Vec<CatalogLeaf>)
        ensures
            leaves.deep_view() == self.spec_leaves(),
    {
        let mut leaves: Vec<CatalogLeaf> = Vec::new();
        let mut prefix: Vec<String> = Vec::new();
        let mut i: usize = 0;
        assert(self.roots@.take(0) =~= Seq::<CatalogNode>::empty());
        assert(leaves.deep_view() =~= forest_leaves(self.roots@.take(0), Seq::empty()));
        assert(prefix.deep_view() =~= Seq::<Seq<char>>::empty());
        while i < self.roots.len()
            invariant
                i <= self.roots.len(),
                prefix.deep_view() == Seq::<Seq<char>>::empty(),
                leaves.deep_view() == forest_leaves(self.roots@.take(i as int), Seq::empty()),
            decreases self.roots.len() - i,
        {
            gather_leaves(&self.roots[i], &mut prefix, &mut leaves);
            proof {
                let upto = self.roots@.take(i + 1);
                assert(upto.drop_last() =~= self.roots@.take(i as int));
                assert(upto.last() == self.roots@[i as int]);
            }
            i = i + 1;
        }
        assert(self.roots@.take(self.roots.len() as int) =~= self.roots@);
        leaves
    }
}

// ---------------------------------------------------------------------------
// Laws of the flattening
// ---------------------------------------------------------------------------

/// How many nodes at and below `node` name a file.
pub open spec fn node_file_count(node: CatalogNode) -> nat
    decreases node,
{
    (if node.file is Some {
        1nat
    } else {
        0nat
    }) + forest_file_count(node.children@)
}

/// How many nodes of the trees `nodes` name a file.
pub open spec fn forest_file_count(nodes: Seq<CatalogNode>) -> nat
    decreases nodes,
{
    if nodes.len() == 0 {
        0
    } else {
        forest_file_count(nodes.drop_last()) + node_file_count(nodes.last())
    }
}

/// A node has as many leaves as there are file-naming nodes at and below it.
pub proof fn lemma_node_leaf_count(node: CatalogNode, prefix: Seq<Seq<char>>)
    ensures
        node_leaves(node, prefix).len() == node_file_count(node),
    decreases node,
{
    lemma_forest_leaf_count(node.children@, prefix.push(node.label@));
}

/// A forest has as many leaves as it has file-naming nodes.
pub proof fn lemma_forest_leaf_count(nodes: Seq<CatalogNode>, prefix: Seq<Seq<char>>)
    ensures
        forest_leaves(nodes, prefix).len() == forest_file_count(nodes),
    decreases nodes,
{
    if nodes.len() > 0 {
        lemma_forest_leaf_count(nodes.drop_last(), prefix);
        lemma_node_leaf_count(nodes.last(), prefix);
    }
}

/// Flattening yields one leaf per node that names a file; a manifest
/// without such nodes, an empty one among them, yields none.
pub proof fn lemma_leaf_count(manifest: CatalogManifest)
    ensures
        manifest.spec_leaves().len() == forest_file_count(manifest.roots@),
        forest_file_count(manifest.roots@) == 0 ==> manifest.spec_leaves() == Seq::<
            CatalogLeafView,
        >::empty(),
        manifest.roots@.len() == 0 ==> manifest.spec_leaves() == Seq::<CatalogLeafView>::empty(),
{
    lemma_forest_leaf_count(manifest.roots@, Seq::empty());
    if forest_file_count(manifest.roots@) == 0 {
        assert(manifest.spec_leaves() =~= Seq::<CatalogLeafView>::empty());
    }
}

/// The node that `address` leads to in the trees `nodes`: the address
/// names a tree, then a child of its root, then a child of that, and so on.
pub open spec fn node_at(nodes: Seq<CatalogNode>, address: Seq<int>) -> Option<CatalogNode>
    decreases address.len(),
{
    if address.len() == 0 || !(0 <= address[0] < nodes.len()) {
        None
    } else if address.len() == 1 {
        Some(nodes[address[0]])
    } else {
        node_at(nodes[address[0]].children@, address.drop_first())
    }
}

/// The labels of the nodes that `address` passes, from the root down to the
/// node it leads to.
pub open spec fn labels_along(nodes: Seq<CatalogNode>, address: Seq<int>) -> Seq<Seq<char>>
    decreases address.len(),
{
    if address.len() == 0 || !(0 <= address[0] < nodes.len()) {
        Seq::empty()
    } else {
        seq![nodes[address[0]].label@] + labels_along(
            nodes[address[0]].children@,
            address.drop_first(),
        )
    }
}

/// `leaf` is the leaf of the node that `address` leads to: that node names
/// the file of the leaf, and the path of the leaf is `prefix` followed by the
/// labels from the root down to the node.
pub open spec fn is_leaf_at(
    nodes: Seq<CatalogNode>,
    prefix: Seq<Seq<char>>,
    address: Seq<int>,
    leaf: CatalogLeafView,
) -> bool {
    &&& node_at(nodes, address) matches Some(node)
    &&& node.file matches Some(file)
    &&& leaf.file == file@
    &&& leaf.path == prefix + labels_along(nodes, address)
}

/// An address into the children of tree `i`, led by `i`, is an address
/// into the forest.
proof fn lemma_descend(
    nodes: Seq<CatalogNode>,
    prefix: Seq<Seq<char>>,
    i: int,
    below: Seq<int>,
    leaf: CatalogLeafView,
)
    requires
        0 <= i < nodes.len(),
        is_leaf_at(nodes[i].children@, prefix.push(nodes[i].label@), below, leaf),
    ensures
        is_leaf_at(nodes, prefix, seq![i] + below, leaf),
{
    let address = seq![i] + below;
    assert(below.len() > 0);
    assert(address.drop_first() =~= below);
    assert(address[0] == i);
    assert(prefix.push(nodes[i].label@) + labels_along(nodes[i].children@, below) =~= prefix + (
    seq![nodes[i].label@] + labels_along(nodes[i].children@, below)));
}

/// An address into all trees but the last is an address into the forest.
proof fn lemma_widen(
    nodes: Seq<CatalogNode>,
    prefix: Seq<Seq<char>>,
    address: Seq<int>,
    leaf: CatalogLeafView,
)
    requires
        nodes.len() > 0,
        is_leaf_at(nodes.drop_last(), prefix, address, leaf),
    ensures
        is_leaf_at(nodes, prefix, address, leaf),
{
    assert(nodes.drop_last()[address[0]] == nodes[address[0]]);
}

/// Every leaf of a node is the node's own or that of a node below it.
proof fn lemma_node_leaf_has_address(node: CatalogNode, prefix: Seq<Seq<char>>, k: int)
    requires
        0 <= k < node_leaves(node, prefix).len(),
    ensures
        ({
            let leaf = node_leaves(node, prefix)[k];
            let path = prefix.push(node.label@);
            ||| (node.file matches Some(file) && leaf.file == file@ && leaf.path == path)
            ||| exists|below: Seq<int>| is_leaf_at(node.children@, path, below, leaf)
        }),
    decreases node, 0int,
{
    let path = prefix.push(node.label@);
    let own = own_leaf(node, path);
    if k >= own.len() {
        lemma_forest_leaf_has_address(node.children@, path, k - own.len());
    }
}

/// Every leaf of a forest is the leaf of a node of the forest, with the
/// chain of labels down to that node as its path.
pub proof fn lemma_forest_leaf_has_address(
    nodes: Seq<CatalogNode>,
    prefix: Seq<Seq<char>>,
    k: int,
)
    requires
        0 <= k < forest_leaves(nodes, prefix).len(),
    ensures
        exists|address: Seq<int>| is_leaf_at(nodes, prefix, address, forest_leaves(nodes, prefix)[k]),
    decreases nodes, 1int,
{
    let leaf = forest_leaves(nodes, prefix)[k];
    let earlier = forest_leaves(nodes.drop_last(), prefix);
    if k < earlier.len() {
        lemma_forest_leaf_has_address(nodes.drop_last(), prefix, k);
        let address = choose|address: Seq<int>|
            is_leaf_at(nodes.drop_last(), prefix, address, leaf);
        lemma_widen(nodes, prefix, address, leaf);
    } else {
        let i = nodes.len() - 1;
        let node = nodes.last();
        let path = prefix.push(node.label@);
        lemma_node_leaf_has_address(node, prefix, k - earlier.len());
        if node.file matches Some(file) && leaf.file == file@ && leaf.path == path {
            let address = seq![i];
            assert(address.drop_first() =~= Seq::<int>::empty());
            assert(labels_along(node.children@, address.drop_first()) =~= Seq::<
                Seq<char>,
            >::empty());
            assert(labels_along(nodes, address) =~= seq![node.label@]);
            assert(prefix + labels_along(nodes, address) =~= path);
            assert(is_leaf_at(nodes, prefix, address, leaf));
        } else {
            let below = choose|below: Seq<int>| is_leaf_at(node.children@, path, below, leaf);
            lemma_descend(nodes, prefix, i, below, leaf);
        }
    }
}

/// The leaves of each tree of a forest are among the leaves of the forest.
proof fn lemma_forest_holds_tree(
    nodes: Seq<CatalogNode>,
    prefix: Seq<Seq<char>>,
    i: int,
    leaf: CatalogLeafView,
)
    requires
        0 <= i < nodes.len(),
        node_leaves(nodes[i], prefix).contains(leaf),
    ensures
        forest_leaves(nodes, prefix).contains(leaf),
    decreases nodes.len(),
{
    let earlier = forest_leaves(nodes.drop_last(), prefix);
    let last = node_leaves(nodes.last(), prefix);
    if i == nodes.len() - 1 {
        let k = choose|k: int| 0 <= k < last.len() && last[k] == leaf;
        assert((earlier + last)[earlier.len() + k] == leaf);
    } else {
        assert(nodes.drop_last()[i] == nodes[i]);
        lemma_forest_holds_tree(nodes.drop_last(), prefix, i, leaf);
        let k = choose|k: int| 0 <= k < earlier.len() && earlier[k] == leaf;
        assert((earlier + last)[k] == leaf);
    }
}

/// Every node of a forest that names a file has its leaf among the leaves
/// of the forest, with the chain of labels down to it as the path.
pub proof fn lemma_file_node_has_leaf(
    nodes: Seq<CatalogNode>,
    prefix: Seq<Seq<char>>,
    address: Seq<int>,
    leaf: CatalogLeafView,
)
    requires
        is_leaf_at(nodes, prefix, address, leaf),
    ensures
        forest_leaves(nodes, prefix).contains(leaf),
    decreases address.len(),
{
    let i = address[0];
    let node = nodes[i];
    let path = prefix.push(node.label@);
    let own = own_leaf(node, path);
    let below_leaves = forest_leaves(node.children@, path);
    if address.len() == 1 {
        assert(address.drop_first() =~= Seq::<int>::empty());
        assert(labels_along(node.children@, address.drop_first()) =~= Seq::<Seq<char>>::empty());
        assert(labels_along(nodes, address) =~= seq![node.label@]);
        assert(prefix + labels_along(nodes, address) =~= path);
        assert((own + below_leaves)[0] == leaf);
    } else {
        let below = address.drop_first();
        assert(prefix + (seq![node.label@] + labels_along(node.children@, below)) =~= path
            + labels_along(node.children@, below));
        lemma_file_node_has_leaf(node.children@, path, below, leaf);
        let k = choose|k: int| 0 <= k < below_leaves.len() && below_leaves[k] == leaf;
        assert((own + below_leaves)[own.len() + k] == leaf);
    }
    lemma_forest_holds_tree(nodes, prefix, i, leaf);
}

// ---------------------------------------------------------------------------
// Copies
// ---------------------------------------------------------------------------

/// Two trees read the same: node for node the same label, slug and file,
/// and children that read the same.
pub open spec fn same_tree(left: CatalogNode, right: CatalogNode) -> bool
    decreases left,
{
    &&& left.label@ == right.label@
    &&& left.slug@ == right.slug@
    &&& left.file.deep_view() == right.file.deep_view()
    &&& same_forest(left.children@, right.children@)
}

/// Two forests read the same: as many trees, which read the same one by one.
pub open spec fn same_forest(left: Seq<CatalogNode>, right: Seq<CatalogNode>) -> bool
    decreases left,
{
    &&& left.len() == right.len()
    &&& left.len() > 0 ==> same_forest(left.drop_last(), right.drop_last()) && same_tree(
        left.last(),
        right.last(),
    )
}

/// Trees that read the same have the same leaves.
pub proof fn lemma_same_tree_same_leaves(
    left: CatalogNode,
    right: CatalogNode,
    prefix: Seq<Seq<char>>,
)
    requires
        same_tree(left, right),
    ensures
        node_leaves(left, prefix) == node_leaves(right, prefix),
    decreases left,
{
    lemma_same_forest_same_leaves(left.children@, right.children@, prefix.push(left.label@));
}

/// Forests that read the same have the same leaves.
pub proof fn lemma_same_forest_same_leaves(
    left: Seq<CatalogNode>,
    right: Seq<CatalogNode>,
    prefix: Seq<Seq<char>>,
)
    requires
        same_forest(left, right),
    ensures
        forest_leaves(left, prefix) == forest_leaves(right, prefix),
    decreases left,
{
    if left.len() > 0 {
        lemma_same_forest_same_leaves(left.drop_last(), right.drop_last(), prefix);
        lemma_same_tree_same_leaves(left.last(), right.last(), prefix);
    }
}

/// A copy of a forest.
fn clone_forest(nodes: &Vec<CatalogNode>) -> (copy: Vec<CatalogNode>)
    ensures
        same_forest(nodes@, copy@),
    decreases nodes,
{
    let mut copy: Vec<CatalogNode> = Vec::new();
    let mut i: usize = 0;
    assert(nodes@.take(0) =~= Seq::<CatalogNode>::empty());
    while i < nodes.len()
        invariant
            i <= nodes.len(),
            copy@.len() == i,
            same_forest(nodes@.take(i as int), copy@),
        decreases nodes.len() - i,
    {
        let node = clone_tree(&nodes[i]);
        let ghost shorter = copy@;
        copy.push(node);
        proof {
            let upto = nodes@.take(i + 1);
            assert(upto.drop_last() =~= nodes@.take(i as int));
            assert(copy@.drop_last() =~= shorter);
            assert(upto.last() == nodes@[i as int]);
        }
        i = i + 1;
    }
    assert(nodes@.take(nodes.len() as int) =~= nodes@);
    copy
}

/// A copy of a tree.
fn clone_tree(node: &CatalogNode) -> (copy: CatalogNode)
    ensures
        same_tree(*node, copy),
    decreases node,
{
    CatalogNode {
        label: node.label.clone(),
        slug: node.slug.clone(),
        file: clone_optional(&node.file),
        children: clone_forest(&node.children),
    }
}

impl Clone for CatalogNode {
    fn clone(&self) -> (copy: Self)
        ensures
            same_tree(*self, copy),
    {
        clone_tree(self)
    }
}

impl Clone for CatalogManifest {
    fn clone(&self) -> (copy: Self)
        ensures
            same_forest(self.roots@, copy.roots@),
            copy.spec_leaves() == self.spec_leaves(),
    {
        let copy = CatalogManifest { roots: clone_forest(&self.roots) };
        proof {
            lemma_same_forest_same_leaves(self.roots@, copy.roots@, Seq::empty());
        }
        copy
    }
}

} // verus!
