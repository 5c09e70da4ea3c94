//! A structural model of syntax trees.
//!
//! The parser (an external collaborator) hands this layer its trees as plain
//! data: each node has a kind, a parent link, an optional interned name and a
//! text range.  Nodes are addressed by their position in the tree's node
//! list; parents come before children, so walking upward terminates.

use vstd::prelude::*;
use crate::ids::HirFileId;

verus! {

#[derive(Clone, Copy, PartialEq, Eq, Hash, Debug, Structural)]
pub enum SyntaxKind {
    SourceFile,
    Module,
    ItemList,
    Trait,
    TraitAlias,
    Impl,
    Enum,
    VariantList,
    Variant,
    Struct,
    Union,
    Fn,
    Const,
    Static,
    TypeAlias,
    ExternCrate,
    ExternBlock,
    Use,
    UseTree,
    RecordFieldList,
    RecordField,
    TupleFieldList,
    TupleField,
    GenericParamList,
    TypeParam,
    ConstParam,
    LifetimeParam,
    MacroRules,
    MacroDef,
    MacroCall,
    BlockExpr,
    IdentPat,
    SelfParam,
    Param,
    ParamList,
    Label,
    ClosureExpr,
    Attr,
    Other,
}

impl SyntaxKind {
    /// Kinds that `ast::Item` covers: nodes that can stand as items.
    pub open spec fn is_item(self) -> bool {
        match self {
            SyntaxKind::Module => true,
            SyntaxKind::Trait => true,
            SyntaxKind::TraitAlias => true,
            SyntaxKind::Impl => true,
            SyntaxKind::Enum => true,
            SyntaxKind::Struct => true,
            SyntaxKind::Union => true,
            SyntaxKind::Fn => true,
            SyntaxKind::Const => true,
            SyntaxKind::Static => true,
            SyntaxKind::TypeAlias => true,
            SyntaxKind::ExternCrate => true,
            SyntaxKind::ExternBlock => true,
            SyntaxKind::Use => true,
            SyntaxKind::MacroRules => true,
            SyntaxKind::MacroDef => true,
            SyntaxKind::MacroCall => true,
            _ => false,
        }
    }
}

/// Half-open text range of a node in its file.
#[derive(Clone, Copy, PartialEq, Eq, Hash, Debug, Structural)]
pub struct TextRange {
    pub start: u32,
    pub end: u32,
}

/// One node of a syntax tree.  `parent` indexes the same tree's node list and
/// is always smaller than the node's own index.
#[derive(Clone, Copy, PartialEq, Eq, Hash, Debug, Structural)]
pub struct SyntaxNodeData {
    pub kind: SyntaxKind,
    pub parent: Option<u32>,
    /// Interned name token, for nodes that declare a name (e.g. `mod foo`).
    pub name: Option<u32>,
    pub range: TextRange,
}

/// A whole parsed tree: nodes in preorder, node 0 the root.
pub struct SyntaxTree {
    pub nodes: Vec<SyntaxNodeData>,
}

impl SyntaxTree {
    /// Parents precede children, and the root has no parent.
    pub open spec fn wf(self) -> bool {
        &&& 0 < self.nodes.len() <= u32::MAX
        &&& self.nodes[0].parent is None
        &&& forall|i: int|
            #![trigger self.nodes[i]]
            0 <= i < self.nodes.len() ==> match self.nodes[i].parent {
                Some(p) => p < i,
                None => true,
            }
    }

    pub open spec fn valid_node(self, idx: u32) -> bool {
        idx < self.nodes.len()
    }

    pub open spec fn spec_kind_of(self, idx: u32) -> SyntaxKind {
        self.nodes[idx as int].kind
    }

    pub fn kind_of(&self, idx: u32) -> (r: SyntaxKind)
        requires
            self.valid_node(idx),
        ensures
            r == self.spec_kind_of(idx),
    {
        self.nodes[idx as usize].kind
    }
}

/// A structural syntax pointer: a node kind together with the node's stable
/// structural coordinate in its tree.  Two pointers are equal iff they denote
/// the same position-and-kind; a pointer re-resolves against any tree of the
/// same shape.
#[derive(Clone, Copy, PartialEq, Eq, Hash, Debug, Structural)]
pub struct AstPtr {
    pub kind: SyntaxKind,
    pub raw: u32,
}

impl AstPtr {
    /// The pointer to a given node of a tree.
    pub open spec fn spec_new(tree: SyntaxTree, idx: u32) -> AstPtr {
        AstPtr { kind: tree.spec_kind_of(idx), raw: idx }
    }

    pub fn of_node(tree: &SyntaxTree, idx: u32) -> (r: AstPtr)
        requires
            tree.valid_node(idx),
        ensures
            r == AstPtr::spec_new(*tree, idx),
    {
        AstPtr { kind: tree.kind_of(idx), raw: idx }
    }

    /// Whether this pointer denotes a node of the given tree.
    pub open spec fn resolves_in(self, tree: SyntaxTree) -> bool {
        tree.valid_node(self.raw) && tree.spec_kind_of(self.raw) == self.kind
    }

    /// Re-resolve the pointer against a tree: the node index, if the tree has
    /// a node of this kind at this coordinate.
    pub fn to_node(self, tree: &SyntaxTree) -> (r: Option<u32>)
        ensures
            r == if self.resolves_in(*tree) {
                Some(self.raw)
            } else {
                None::<u32>
            },
    {
        if (self.raw as usize) < tree.nodes.len() && tree.kind_of(self.raw) == self.kind {
            Some(self.raw)
        } else {
            None
        }
    }
}

/// The children of a node that have a wanted kind, among the first `n`
/// nodes of the tree, in tree order.
pub open spec fn child_nodes_upto(tree: SyntaxTree, parent: u32, kind: SyntaxKind, n: int) -> Seq<
    u32,
>
    decreases n,
{
    if n <= 0 {
        Seq::empty()
    } else {
        let s = child_nodes_upto(tree, parent, kind, n - 1);
        if tree.nodes[n - 1].parent == Some(parent) && tree.nodes[n - 1].kind == kind {
            s.push((n - 1) as u32)
        } else {
            s
        }
    }
}

/// The children of a node that have a wanted kind, in tree order.
pub open spec fn child_nodes(tree: SyntaxTree, parent: u32, kind: SyntaxKind) -> Seq<u32> {
    child_nodes_upto(tree, parent, kind, tree.nodes.len() as int)
}

/// The children of a node that have either of two wanted kinds, among the
/// first `n` nodes, in tree order.
pub open spec fn child_nodes2_upto(
    tree: SyntaxTree,
    parent: u32,
    k1: SyntaxKind,
    k2: SyntaxKind,
    n: int,
) -> Seq<u32>
    decreases n,
{
    if n <= 0 {
        Seq::empty()
    } else {
        let s = child_nodes2_upto(tree, parent, k1, k2, n - 1);
        if tree.nodes[n - 1].parent == Some(parent) && (tree.nodes[n - 1].kind == k1
            || tree.nodes[n - 1].kind == k2) {
            s.push((n - 1) as u32)
        } else {
            s
        }
    }
}

/// The children of a node that have either of two wanted kinds, in tree
/// order.
pub open spec fn child_nodes2(tree: SyntaxTree, parent: u32, k1: SyntaxKind, k2: SyntaxKind) -> Seq<
    u32,
> {
    child_nodes2_upto(tree, parent, k1, k2, tree.nodes.len() as int)
}

/// The first child of a node with a wanted kind, if any.
pub open spec fn first_child(tree: SyntaxTree, parent: u32, kind: SyntaxKind) -> Option<u32> {
    if child_nodes(tree, parent, kind).len() > 0 {
        Some(child_nodes(tree, parent, kind)[0])
    } else {
        None
    }
}

/// Collect the children of a node with a wanted kind, in tree order.
#[verifier::loop_isolation(false)]
pub fn collect_child_nodes(tree: &SyntaxTree, parent: u32, kind: SyntaxKind) -> (r: Vec<u32>)
    ensures
        r@ == child_nodes(*tree, parent, kind),
        r@.len() <= tree.nodes.len(),
        forall|k: int| 0 <= k < r@.len() ==> (#[trigger] r@[k]) < tree.nodes.len(),
{
    let mut r: Vec<u32> = Vec::new();
    let mut j: usize = 0;
    while j < tree.nodes.len()
        invariant
            0 <= j <= tree.nodes.len(),
            r.len() <= j,
            forall|k: int| 0 <= k < r@.len() ==> (#[trigger] r@[k]) < j,
            r@ == child_nodes_upto(*tree, parent, kind, j as int),
        decreases tree.nodes.len() - j,
    {
        if tree.nodes[j].parent == Some(parent) && tree.nodes[j].kind == kind {
            r.push(j as u32);
        }
        j += 1;
    }
    r
}

/// Collect the children of a node with either of two wanted kinds, in tree
/// order.
#[verifier::loop_isolation(false)]
pub fn collect_child_nodes2(tree: &SyntaxTree, parent: u32, k1: SyntaxKind, k2: SyntaxKind) -> (r:
    Vec<u32>)
    ensures
        r@ == child_nodes2(*tree, parent, k1, k2),
        r@.len() <= tree.nodes.len(),
        forall|k: int| 0 <= k < r@.len() ==> (#[trigger] r@[k]) < tree.nodes.len(),
{
    let mut r: Vec<u32> = Vec::new();
    let mut j: usize = 0;
    while j < tree.nodes.len()
        invariant
            0 <= j <= tree.nodes.len(),
            r.len() <= j,
            forall|k: int| 0 <= k < r@.len() ==> (#[trigger] r@[k]) < j,
            r@ == child_nodes2_upto(*tree, parent, k1, k2, j as int),
        decreases tree.nodes.len() - j,
    {
        if tree.nodes[j].parent == Some(parent) && (tree.nodes[j].kind == k1 || tree.nodes[j].kind
            == k2) {
            r.push(j as u32);
        }
        j += 1;
    }
    r
}

/// The first child of a node with a wanted kind.
#[verifier::loop_isolation(false)]
pub fn find_first_child(tree: &SyntaxTree, parent: u32, kind: SyntaxKind) -> (r: Option<u32>)
    ensures
        r == first_child(*tree, parent, kind),
{
    let mut j: usize = 0;
    while j < tree.nodes.len()
        invariant
            0 <= j <= tree.nodes.len(),
            child_nodes_upto(*tree, parent, kind, j as int) == Seq::<u32>::empty(),
        decreases tree.nodes.len() - j,
    {
        if tree.nodes[j].parent == Some(parent) && tree.nodes[j].kind == kind {
            proof {
                lemma_child_nodes_extend_hit(*tree, parent, kind, j as int);
            }
            return Some(j as u32);
        }
        j += 1;
    }
    None
}

/// Once a child of the wanted kind is found after an empty prefix, it heads
/// the whole child list.
proof fn lemma_child_nodes_extend_hit(tree: SyntaxTree, parent: u32, kind: SyntaxKind, j: int)
    requires
        0 <= j < tree.nodes.len(),
        child_nodes_upto(tree, parent, kind, j) == Seq::<u32>::empty(),
        tree.nodes[j].parent == Some(parent),
        tree.nodes[j].kind == kind,
    ensures
        child_nodes(tree, parent, kind).len() > 0,
        child_nodes(tree, parent, kind)[0] == j as u32,
    decreases tree.nodes.len() - j,
{
    assert(child_nodes_upto(tree, parent, kind, j + 1) == seq![j as u32]);
    lemma_child_nodes_first_stays(tree, parent, kind, j + 1, tree.nodes.len() as int);
}

/// The head of a non-empty child list does not change as the scan bound
/// grows.
proof fn lemma_child_nodes_first_stays(tree: SyntaxTree, parent: u32, kind: SyntaxKind, n: int, m: int)
    requires
        0 < n <= m,
        child_nodes_upto(tree, parent, kind, n).len() > 0,
    ensures
        child_nodes_upto(tree, parent, kind, m).len() > 0,
        child_nodes_upto(tree, parent, kind, m)[0] == child_nodes_upto(tree, parent, kind, n)[0],
    decreases m - n,
{
    if n < m {
        lemma_child_nodes_first_stays(tree, parent, kind, n, m - 1);
    }
}

/// Every collected child lies below the scan bound, has the wanted kind
/// and the wanted parent.
pub proof fn lemma_child_nodes_upto_props(tree: SyntaxTree, parent: u32, kind: SyntaxKind, n: int)
    requires
        n <= u32::MAX,
    ensures
        forall|k: int|
            #![trigger child_nodes_upto(tree, parent, kind, n)[k]]
            0 <= k < child_nodes_upto(tree, parent, kind, n).len() ==> {
                let j = child_nodes_upto(tree, parent, kind, n)[k];
                &&& j < n
                &&& tree.nodes[j as int].kind == kind
                &&& tree.nodes[j as int].parent == Some(parent)
            },
    decreases n,
{
    if n > 0 {
        lemma_child_nodes_upto_props(tree, parent, kind, n - 1);
        let prev = child_nodes_upto(tree, parent, kind, n - 1);
        let cur = child_nodes_upto(tree, parent, kind, n);
        assert forall|k: int|
            0 <= k < cur.len() implies {
                let j = #[trigger] cur[k];
                &&& j < n
                &&& tree.nodes[j as int].kind == kind
                &&& tree.nodes[j as int].parent == Some(parent)
            } by {
            if k < prev.len() {
                assert(cur[k] == prev[k]);
            }
        }
    }
}

/// Every collected child lies below the scan bound, has one of the wanted
/// kinds and the wanted parent.
pub proof fn lemma_child_nodes2_upto_props(
    tree: SyntaxTree,
    parent: u32,
    k1: SyntaxKind,
    k2: SyntaxKind,
    n: int,
)
    requires
        n <= u32::MAX,
    ensures
        forall|k: int|
            #![trigger child_nodes2_upto(tree, parent, k1, k2, n)[k]]
            0 <= k < child_nodes2_upto(tree, parent, k1, k2, n).len() ==> {
                let j = child_nodes2_upto(tree, parent, k1, k2, n)[k];
                &&& j < n
                &&& (tree.nodes[j as int].kind == k1 || tree.nodes[j as int].kind == k2)
                &&& tree.nodes[j as int].parent == Some(parent)
            },
    decreases n,
{
    if n > 0 {
        lemma_child_nodes2_upto_props(tree, parent, k1, k2, n - 1);
        let prev = child_nodes2_upto(tree, parent, k1, k2, n - 1);
        let cur = child_nodes2_upto(tree, parent, k1, k2, n);
        assert forall|k: int|
            0 <= k < cur.len() implies {
                let j = #[trigger] cur[k];
                &&& j < n
                &&& (tree.nodes[j as int].kind == k1 || tree.nodes[j as int].kind == k2)
                &&& tree.nodes[j as int].parent == Some(parent)
            } by {
            if k < prev.len() {
                assert(cur[k] == prev[k]);
            }
        }
    }
}

/// A value paired with the file (real or macro-expansion) it comes from.
#[derive(Clone, Copy, PartialEq, Eq, Hash, Debug)]
pub struct InFile<T> {
    pub file_id: HirFileId,
    pub value: T,
}

} // verus!
