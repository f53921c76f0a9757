//! Plain-value models of tree-sitter's point and range types.

use vstd::prelude::*;

verus! {

/// A zero-based row and byte column in a syntax tree's source.
#[derive(Debug, Clone, Copy, Default, PartialEq, Eq, Structural)]
pub struct TsPoint {
    pub row: usize,
    pub column: usize,
}

/// A span of source text, by byte offsets and by points.
#[derive(Debug, Clone, Copy, Default, PartialEq, Eq, Structural)]
pub struct TsRange {
    pub start_byte: usize,
    pub end_byte: usize,
    pub start_point: TsPoint,
    pub end_point: TsPoint,
}

/// Tree-sitter's point order: by row, then by column.
pub open spec fn ts_point_le(a: TsPoint, b: TsPoint) -> bool {
    a.row < b.row || (a.row == b.row && a.column <= b.column)
}

/// Compares two points by row, then by column.
pub fn ts_point_le_exec(a: TsPoint, b: TsPoint) -> (r: bool)
    ensures
        r == ts_point_le(a, b),
{
    a.row < b.row || (a.row == b.row && a.column <= b.column)
}

/// One node of a [`SyntaxTree`]: its parent, its children in order, and
/// its source range.
#[derive(Debug)]
pub struct SyntaxNode {
    parent: Option<usize>,
    children: Vec<usize>,
    range: TsRange,
}

/// The model of a [`SyntaxNode`].
pub struct SyntaxNodeView {
    pub parent: Option<usize>,
    pub children: Seq<usize>,
    pub range: TsRange,
}

/// A syntax tree as an arena of nodes: a node is named by its index, and
/// every node comes after its parent, so that indices grow downwards.
#[derive(Debug)]
pub struct SyntaxTree {
    nodes: Vec<SyntaxNode>,
}

impl View for SyntaxTree {
    type V = Seq<SyntaxNodeView>;

    closed spec fn view(&self) -> Seq<SyntaxNodeView> {
        self.nodes@.map_values(
            |n: SyntaxNode| SyntaxNodeView { parent: n.parent, children: n.children@, range: n.range },
        )
    }
}

/// The tree's shape: parents come before their children, and parent and
/// child links agree.
pub open spec fn tree_wf(nodes: Seq<SyntaxNodeView>) -> bool {
    &&& forall|i: int|
        0 <= i < nodes.len() ==> (#[trigger] nodes[i].parent matches Some(p) ==> p < i && nodes[p as int].children.contains(i as usize))
    &&& forall|i: int, j: int|
        0 <= i < nodes.len() && 0 <= j < nodes[i].children.len() ==> {
            let c = #[trigger] nodes[i].children[j];
            &&& i < c < nodes.len()
            &&& nodes[c as int].parent == Some(i as usize)
        }
    &&& forall|i: int, j: int, k: int|
        0 <= i < nodes.len() && 0 <= j < k < nodes[i].children.len() ==> #[trigger] nodes[i].children[j]
            != #[trigger] nodes[i].children[k]
}

impl SyntaxTree {
    /// The tree is well formed.
    pub open spec fn wf(&self) -> bool {
        tree_wf(self@)
    }

    /// An empty tree.
    pub fn new() -> (r: Self)
        ensures
            r.wf(),
            r@.len() == 0,
    {
        let r = SyntaxTree { nodes: Vec::new() };
        proof {
            assert(r@ =~= Seq::<SyntaxNodeView>::empty());
        }
        r
    }

    /// Number of nodes.
    pub fn len(&self) -> (r: usize)
        ensures
            r == self@.len(),
    {
        self.nodes.len()
    }

    /// Adds a node with the given parent (a node already in the tree) as
    /// that parent's last child, and returns it. Nodes are added parents
    /// first and siblings in order, as a pre-order walk meets them.
    pub fn add_node(&mut self, parent: Option<usize>, range: TsRange) -> (r: usize)
        requires
            old(self).wf(),
            parent matches Some(p) ==> p < old(self)@.len(),
            old(self)@.len() < usize::MAX,
        ensures
            final(self).wf(),
            r == old(self)@.len(),
            final(self)@.len() == old(self)@.len() + 1,
            final(self)@[r as int].parent == parent,
            final(self)@[r as int].children.len() == 0,
            final(self)@[r as int].range == range,
            forall|i: int|
                0 <= i < old(self)@.len() ==> #[trigger] final(self)@[i].parent == old(self)@[i].parent
                    && final(self)@[i].range == old(self)@[i].range,
            forall|i: int|
                0 <= i < old(self)@.len() ==> #[trigger] final(self)@[i].children == if parent
                    == Some(i as usize) {
                    old(self)@[i].children.push(r)
                } else {
                    old(self)@[i].children
                },
    {
        let id = self.nodes.len();
        let ghost before = self@;
        match parent {
            Some(p) => {
                let mut children = self.nodes[p].children.clone();
                proof {
                    assert(children@ =~= before[p as int].children);
                }
                children.push(id);
                let node = SyntaxNode {
                    parent: self.nodes[p].parent,
                    children,
                    range: self.nodes[p].range,
                };
                self.nodes.set(p, node);
            },
            None => {},
        }
        self.nodes.push(SyntaxNode { parent, children: Vec::new(), range });
        proof {
            let after = self@;
            assert(after.len() == before.len() + 1);
            assert forall|i: int| 0 <= i < before.len() implies #[trigger] after[i].parent
                == before[i].parent && after[i].range == before[i].range && after[i].children == (
            if parent == Some(i as usize) {
                before[i].children.push(id)
            } else {
                before[i].children
            }) by {}
            assert(after[id as int].children =~= Seq::<usize>::empty());
            assert forall|i: int|
                0 <= i < after.len() implies (#[trigger] after[i].parent matches Some(q) ==> q < i
                && after[q as int].children.contains(i as usize)) by {
                if i < before.len() {
                    if let Some(q) = after[i].parent {
                        let k = choose|k: int| 0 <= k < before[q as int].children.len() && before[q as int].children[k] == i as usize;
                        assert(after[q as int].children[k] == i as usize);
                    }
                } else {
                    if let Some(q) = parent {
                        assert(after[q as int].children[after[q as int].children.len() - 1] == id);
                    }
                }
            }
            assert forall|i: int, j: int|
                0 <= i < after.len() && 0 <= j < after[i].children.len() implies ({
                let c = #[trigger] after[i].children[j];
                &&& i < c < after.len()
                &&& after[c as int].parent == Some(i as usize)
            }) by {
                if j < before[i].children.len() {
                    assert(after[i].children[j] == before[i].children[j]);
                }
            }
            assert forall|i: int, j: int, k: int|
                0 <= i < after.len() && 0 <= j < k < after[i].children.len() implies #[trigger] after[i].children[j]
                != #[trigger] after[i].children[k] by {
                if k < before[i].children.len() {
                } else {
                    assert(after[i].children[k] == id);
                    assert(after[i].children[j] == before[i].children[j]);
                }
            }
        }
        id
    }

    /// The parent of a node.
    pub fn parent(&self, id: usize) -> (r: Option<usize>)
        requires
            id < self@.len(),
        ensures
            r == self@[id as int].parent,
    {
        self.nodes[id].parent
    }

    /// The children of a node, in order.
    pub fn children(&self, id: usize) -> (r: &[usize])
        requires
            id < self@.len(),
        ensures
            r@ == self@[id as int].children,
    {
        self.nodes[id].children.as_slice()
    }

    /// The source range of a node.
    pub fn range(&self, id: usize) -> (r: TsRange)
        requires
            id < self@.len(),
        ensures
            r == self@[id as int].range,
    {
        self.nodes[id].range
    }
}

} // verus!
