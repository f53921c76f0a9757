//! Helpers for working with syntax trees in an LSP context.
//!
//! All conversions between tree-sitter and protocol coordinates assume
//! UTF-8 positions, the crate-wide invariant.

use vstd::prelude::*;

use crate::protocol::{LspPosition, LspRange};
use crate::syntax::{SyntaxNodeView, SyntaxTree, TsPoint, TsRange, tree_wf};
use crate::text_utils::position::Position;

verus! {

/// `n` clamped to the `u32` range.
pub open spec fn clamp_u32(n: usize) -> u32 {
    if n > u32::MAX {
        u32::MAX
    } else {
        n as u32
    }
}

/// Whether `range` contains `point`, bounds included, by row then column.
pub open spec fn range_contains_point(range: TsRange, point: TsPoint) -> bool {
    &&& (point.row > range.start_point.row || (point.row == range.start_point.row
        && point.column >= range.start_point.column))
    &&& (point.row < range.end_point.row || (point.row == range.end_point.row && point.column
        <= range.end_point.column))
}

/// Converts a tree-sitter point to a protocol position (UTF-8 columns);
/// rows and columns beyond `u32` are clamped.
pub fn ts_point_to_lsp_position(pos: TsPoint) -> (r: LspPosition)
    ensures
        r.line == clamp_u32(pos.row),
        r.character == clamp_u32(pos.column),
{
    LspPosition {
        line: crate::text_utils::range_ext::lsp::saturating_u32(pos.row),
        character: crate::text_utils::range_ext::lsp::saturating_u32(pos.column),
    }
}

/// Converts a tree-sitter range to a protocol range (UTF-8 columns).
pub fn ts_range_to_lsp_range(range: TsRange) -> (r: LspRange)
    ensures
        r.start.line == clamp_u32(range.start_point.row),
        r.start.character == clamp_u32(range.start_point.column),
        r.end.line == clamp_u32(range.end_point.row),
        r.end.character == clamp_u32(range.end_point.column),
{
    LspRange {
        start: ts_point_to_lsp_position(range.start_point),
        end: ts_point_to_lsp_position(range.end_point),
    }
}

/// Whether a tree-sitter range contains a protocol position (UTF-8
/// columns), bounds included.
pub fn ts_range_contains_lsp_position(range: TsRange, pos: LspPosition) -> (r: bool)
    ensures
        r == range_contains_point(range, TsPoint { row: pos.line as usize, column: pos.character as usize }),
{
    let point = lsp_position_to_ts_point(pos);
    ts_range_contains_ts_point(range, point)
}

/// Whether a tree-sitter range contains a tree-sitter point, bounds
/// included.
pub fn ts_range_contains_ts_point(range: TsRange, point: TsPoint) -> (r: bool)
    ensures
        r == range_contains_point(range, point),
{
    (point.row > range.start_point.row || point.row == range.start_point.row && point.column
        >= range.start_point.column) && (point.row < range.end_point.row || point.row
        == range.end_point.row && point.column <= range.end_point.column)
}

/// Converts a protocol position (UTF-8 columns) to a tree-sitter point.
pub fn lsp_position_to_ts_point(pos: LspPosition) -> (r: TsPoint)
    ensures
        r.row == pos.line,
        r.column == pos.character,
{
    TsPoint { row: pos.line as usize, column: pos.character as usize }
}

/// `r` is the first of `ids` that `pred` accepts, every earlier one having
/// been rejected; `None` when all of them were rejected.
pub open spec fn first_accepted<F: Fn(usize) -> bool>(
    pred: F,
    ids: Seq<usize>,
    r: Option<usize>,
) -> bool {
    match r {
        Some(found) => exists|j: int|
            0 <= j < ids.len() && ids[j] == found && pred.ensures((found,), true) && forall|k: int|
                0 <= k < j ==> pred.ensures((#[trigger] ids[k],), false),
        None => forall|k: int| 0 <= k < ids.len() ==> pred.ensures((#[trigger] ids[k],), false),
    }
}

/// The ancestors of `id`, nearest first.
pub open spec fn ancestors(nodes: Seq<SyntaxNodeView>, id: usize) -> Seq<usize>
    decreases id,
{
    if id < nodes.len() {
        match nodes[id as int].parent {
            Some(p) => if p < id {
                seq![p] + ancestors(nodes, p)
            } else {
                Seq::empty()
            },
            None => Seq::empty(),
        }
    } else {
        Seq::empty()
    }
}

/// The children of all of `ids`, in order.
pub open spec fn children_of_all(nodes: Seq<SyntaxNodeView>, ids: Seq<usize>) -> Seq<usize>
    decreases ids.len(),
{
    if ids.len() == 0 {
        Seq::empty()
    } else {
        children_of_all(nodes, ids.drop_last()) + nodes[ids.last() as int].children
    }
}

/// The nodes `depth` levels below `root`, in breadth-first order.
pub open spec fn level(nodes: Seq<SyntaxNodeView>, root: usize, depth: nat) -> Seq<usize>
    decreases depth,
{
    if depth == 0 {
        seq![root]
    } else {
        children_of_all(nodes, level(nodes, root, (depth - 1) as nat))
    }
}

/// The nodes less than `depth` levels below `root`, level by level.
pub open spec fn levels_upto(nodes: Seq<SyntaxNodeView>, root: usize, depth: nat) -> Seq<usize>
    decreases depth,
{
    if depth == 0 {
        Seq::empty()
    } else {
        levels_upto(nodes, root, (depth - 1) as nat) + level(nodes, root, (depth - 1) as nat)
    }
}

/// `root` and all its descendants, in breadth-first order.
pub open spec fn breadth_first(nodes: Seq<SyntaxNodeView>, root: usize) -> Seq<usize> {
    levels_upto(nodes, root, nodes.len() + 1)
}

/// Finds the first child of `node` that `pred` accepts.
pub fn find_child<F: Fn(usize) -> bool>(tree: &SyntaxTree, node: usize, pred: F) -> (r: Option<usize>)
    requires
        tree.wf(),
        node < tree@.len(),
        forall|n: usize| pred.requires((n,)),
    ensures
        first_accepted(pred, tree@[node as int].children, r),
{
    let children = tree.children(node);
    let mut i: usize = 0;
    while i < children.len()
        invariant
            0 <= i <= children@.len(),
            children@ == tree@[node as int].children,
            forall|n: usize| pred.requires((n,)),
            forall|k: int| 0 <= k < i ==> pred.ensures((#[trigger] children@[k],), false),
        decreases children@.len() - i,
    {
        let child = children[i];
        if pred(child) {
            proof {
                assert(children@[i as int] == child);
            }
            return Some(child);
        }
        i = i + 1;
    }
    None
}

proof fn lemma_ancestors_step(nodes: Seq<SyntaxNodeView>, id: usize, p: usize)
    requires
        tree_wf(nodes),
        id < nodes.len(),
        nodes[id as int].parent == Some(p),
    ensures
        ancestors(nodes, id) == seq![p] + ancestors(nodes, p),
        p < id,
{
}

proof fn lemma_ancestors_none(nodes: Seq<SyntaxNodeView>, id: usize)
    requires
        id < nodes.len(),
        nodes[id as int].parent is None,
    ensures
        ancestors(nodes, id) == Seq::<usize>::empty(),
{
}

/// Finds the nearest ancestor of `node` (the node itself excluded) that
/// `pred` accepts.
pub fn find_ancestor<F: Fn(usize) -> bool>(tree: &SyntaxTree, node: usize, pred: F) -> (r: Option<
    usize,
>)
    requires
        tree.wf(),
        node < tree@.len(),
        forall|n: usize| pred.requires((n,)),
    ensures
        first_accepted(pred, ancestors(tree@, node), r),
{
    let ghost all = ancestors(tree@, node);
    let mut current = tree.parent(node);
    let ghost mut seen: Seq<usize> = Seq::empty();
    proof {
        match current {
            Some(p) => lemma_ancestors_step(tree@, node, p),
            None => lemma_ancestors_none(tree@, node),
        }
    }
    loop
        invariant
            tree.wf(),
            forall|n: usize| pred.requires((n,)),
            all == ancestors(tree@, node),
            match current {
                Some(c) => c < tree@.len() && all == seen + seq![c] + ancestors(tree@, c),
                None => all == seen,
            },
            forall|k: int| 0 <= k < seen.len() ==> pred.ensures((#[trigger] seen[k],), false),
        decreases match current {
            Some(c) => c + 1,
            None => 0,
        },
    {
        match current {
            Some(id) => {
                if pred(id) {
                    proof {
                        let j = seen.len() as int;
                        assert(all[j] == id);
                        assert forall|k: int| 0 <= k < j implies pred.ensures(
                            (#[trigger] all[k],),
                            false,
                        ) by {
                            assert(all[k] == seen[k]);
                        }
                    }
                    return Some(id);
                }
                let next = tree.parent(id);
                proof {
                    match next {
                        Some(p) => lemma_ancestors_step(tree@, id, p),
                        None => lemma_ancestors_none(tree@, id),
                    }
                    seen = seen.push(id);
                    assert(seen + ancestors(tree@, id) =~= seen.drop_last() + seq![id] + ancestors(
                        tree@,
                        id,
                    ));
                    match next {
                        Some(p) => {
                            assert(all =~= seen + seq![p] + ancestors(tree@, p));
                        },
                        None => {
                            assert(all =~= seen);
                        },
                    }
                }
                current = next;
            },
            None => {
                return None;
            },
        }
    }
}

proof fn lemma_children_of_all_push(nodes: Seq<SyntaxNodeView>, ids: Seq<usize>, id: usize)
    ensures
        children_of_all(nodes, ids.push(id)) == children_of_all(nodes, ids) + nodes[id as int].children,
{
    assert(ids.push(id).drop_last() =~= ids);
}

proof fn lemma_children_of_all_empty(nodes: Seq<SyntaxNodeView>)
    ensures
        children_of_all(nodes, Seq::empty()) == Seq::<usize>::empty(),
{
}

proof fn lemma_levels_stay_empty(nodes: Seq<SyntaxNodeView>, root: usize, d: nat, e: nat)
    requires
        level(nodes, root, d).len() == 0,
        d <= e,
    ensures
        level(nodes, root, e).len() == 0,
        levels_upto(nodes, root, e + 1) == levels_upto(nodes, root, d + 1),
    decreases e - d,
{
    if d < e {
        lemma_levels_stay_empty(nodes, root, d, (e - 1) as nat);
        assert(level(nodes, root, (e - 1) as nat) =~= Seq::<usize>::empty());
        lemma_children_of_all_empty(nodes);
        assert(levels_upto(nodes, root, e + 1) =~= levels_upto(nodes, root, e));
    } else {
        assert(levels_upto(nodes, root, d + 1) == levels_upto(nodes, root, d) + level(nodes, root, d));
    }
}

proof fn lemma_levels_prefix(nodes: Seq<SyntaxNodeView>, root: usize, d: nat, e: nat)
    requires
        d <= e,
    ensures
        levels_upto(nodes, root, d).len() <= levels_upto(nodes, root, e).len(),
        levels_upto(nodes, root, e).take(levels_upto(nodes, root, d).len() as int) == levels_upto(
            nodes,
            root,
            d,
        ),
    decreases e - d,
{
    if d < e {
        lemma_levels_prefix(nodes, root, d, (e - 1) as nat);
        let a = levels_upto(nodes, root, d);
        let b = levels_upto(nodes, root, (e - 1) as nat);
        let c = levels_upto(nodes, root, e);
        assert(c == b + level(nodes, root, (e - 1) as nat));
        assert(c.take(a.len() as int) =~= b.take(a.len() as int));
    } else {
        let a = levels_upto(nodes, root, d);
        assert(a.take(a.len() as int) =~= a);
    }
}

/// Finds the first node, `node` itself or one of its descendants, that
/// `pred` accepts, searching breadth-first.
pub fn find_descendant<F: Fn(usize) -> bool>(tree: &SyntaxTree, node: usize, pred: F) -> (r: Option<
    usize,
>)
    requires
        tree.wf(),
        node < tree@.len(),
        forall|n: usize| pred.requires((n,)),
    ensures
        first_accepted(pred, breadth_first(tree@, node), r),
{
    let ghost nodes = tree@;
    let n = tree.len();
    let mut frontier: Vec<usize> = Vec::new();
    frontier.push(node);
    let mut depth: usize = 0;
    proof {
        assert(frontier@ =~= level(nodes, node, 0));
        assert(levels_upto(nodes, node, 0) =~= Seq::<usize>::empty());
    }
    while frontier.len() > 0
        invariant
            tree.wf(),
            nodes == tree@,
            n == nodes.len(),
            node < n,
            forall|m: usize| pred.requires((m,)),
            depth <= n,
            frontier@ == level(nodes, node, depth as nat),
            forall|k: int| 0 <= k < frontier@.len() ==> node + depth <= #[trigger] frontier@[k] < n,
            forall|k: int|
                0 <= k < levels_upto(nodes, node, depth as nat).len() ==> pred.ensures(
                    (#[trigger] levels_upto(nodes, node, depth as nat)[k],),
                    false,
                ),
        decreases n - depth,
    {
        let ghost done = levels_upto(nodes, node, depth as nat);
        let mut next: Vec<usize> = Vec::new();
        let mut i: usize = 0;
        proof {
            assert(frontier@.take(0) =~= Seq::<usize>::empty());
            lemma_children_of_all_empty(nodes);
            assert(node + depth <= frontier@[0] < n);
        }
        while i < frontier.len()
            invariant
                tree.wf(),
                nodes == tree@,
                n == nodes.len(),
                node < n,
                forall|m: usize| pred.requires((m,)),
                depth < n,
                frontier@ == level(nodes, node, depth as nat),
                forall|k: int| 0 <= k < frontier@.len() ==> node + depth <= #[trigger] frontier@[k] < n,
                done == levels_upto(nodes, node, depth as nat),
                forall|k: int| 0 <= k < done.len() ==> pred.ensures((#[trigger] done[k],), false),
                0 <= i <= frontier@.len(),
                forall|k: int| 0 <= k < i ==> pred.ensures((#[trigger] frontier@[k],), false),
                next@ == children_of_all(nodes, frontier@.take(i as int)),
                forall|k: int| 0 <= k < next@.len() ==> node + depth < #[trigger] next@[k] < n,
            decreases frontier@.len() - i,
        {
            let current = frontier[i];
            if pred(current) {
                proof {
                    let order = breadth_first(nodes, node);
                    let upto = levels_upto(nodes, node, depth as nat + 1);
                    assert(upto == done + frontier@);
                    lemma_levels_prefix(nodes, node, depth as nat + 1, nodes.len() + 1);
                    let j = done.len() + i;
                    assert(order[j] == upto[j]);
                    assert(upto[j] == current);
                    assert forall|k: int| 0 <= k < j implies pred.ensures((#[trigger] order[k],), false) by {
                        assert(order[k] == upto[k]);
                        if k < done.len() {
                            assert(upto[k] == done[k]);
                        } else {
                            assert(upto[k] == frontier@[k - done.len()]);
                        }
                    }
                }
                return Some(current);
            }
            let children = tree.children(current);
            let mut j: usize = 0;
            let ghost before = next@;
            while j < children.len()
                invariant
                    tree.wf(),
                    nodes == tree@,
                    n == nodes.len(),
                    current < n,
                    node + depth <= current,
                    children@ == nodes[current as int].children,
                    0 <= j <= children@.len(),
                    next@ == before + children@.take(j as int),
                    forall|k: int| 0 <= k < next@.len() ==> node + depth < #[trigger] next@[k] < n,
                decreases children@.len() - j,
            {
                proof {
                    assert(current < children@[j as int] < n);
                }
                next.push(children[j]);
                j = j + 1;
                proof {
                    assert(next@ =~= before + children@.take(j as int));
                }
            }
            proof {
                assert(children@.take(j as int) =~= children@);
                assert(frontier@.take(i + 1) =~= frontier@.take(i as int).push(current));
                lemma_children_of_all_push(nodes, frontier@.take(i as int), current);
            }
            i = i + 1;
        }
        proof {
            assert(frontier@.take(i as int) =~= frontier@);
            assert(next@ == level(nodes, node, depth as nat + 1));
            assert(levels_upto(nodes, node, depth as nat + 1) == done + frontier@);
            assert forall|k: int| 0 <= k < (done + frontier@).len() implies pred.ensures(
                (#[trigger] (done + frontier@)[k],),
                false,
            ) by {
                if k < done.len() {
                    assert((done + frontier@)[k] == done[k]);
                } else {
                    assert((done + frontier@)[k] == frontier@[k - done.len()]);
                }
            }
        }
        frontier = next;
        depth = depth + 1;
    }
    proof {
        lemma_levels_stay_empty(nodes, node, depth as nat, nodes.len());
        assert(levels_upto(nodes, node, depth as nat + 1) == levels_upto(nodes, node, depth as nat)
            + level(nodes, node, depth as nat));
        assert(levels_upto(nodes, node, depth as nat + 1) =~= levels_upto(nodes, node, depth as nat));
    }
    None
}

/// `id` lies in the tree, its range contains `point`, and `pred` accepted it.
pub open spec fn accepted_at<F: Fn(usize) -> bool>(
    nodes: Seq<SyntaxNodeView>,
    pred: F,
    point: TsPoint,
    id: usize,
) -> bool {
    id < nodes.len() && range_contains_point(nodes[id as int].range, point) && pred.ensures(
        (id,),
        true,
    )
}

/// `id` lies outside the tree, its range misses `point`, or `pred`
/// rejected it.
pub open spec fn rejected_at<F: Fn(usize) -> bool>(
    nodes: Seq<SyntaxNodeView>,
    pred: F,
    point: TsPoint,
    id: usize,
) -> bool {
    id >= nodes.len() || !range_contains_point(nodes[id as int].range, point) || pred.ensures(
        (id,),
        false,
    )
}

/// `r` is the first of `ids` whose range contains `point` and that `pred`
/// accepts, every earlier one having missed the point or been rejected;
/// `None` when all of them were.
pub open spec fn first_accepted_at<F: Fn(usize) -> bool>(
    nodes: Seq<SyntaxNodeView>,
    pred: F,
    point: TsPoint,
    ids: Seq<usize>,
    r: Option<usize>,
) -> bool {
    match r {
        Some(found) => exists|j: int|
            0 <= j < ids.len() && ids[j] == found && accepted_at(nodes, pred, point, found)
                && forall|k: int| 0 <= k < j ==> rejected_at(nodes, pred, point, #[trigger] ids[k]),
        None => forall|k: int| 0 <= k < ids.len() ==> rejected_at(nodes, pred, point, #[trigger] ids[k]),
    }
}

proof fn lemma_first_accepted_at<F: Fn(usize) -> bool, G: Fn(usize) -> bool>(
    nodes: Seq<SyntaxNodeView>,
    pred: F,
    point: TsPoint,
    accept: G,
    ids: Seq<usize>,
    r: Option<usize>,
)
    requires
        first_accepted(accept, ids, r),
        forall|x: usize, b: bool| #[trigger]
            accept.ensures((x,), b) ==> (b ==> accepted_at(nodes, pred, point, x)) && (!b
                ==> rejected_at(nodes, pred, point, x)),
    ensures
        first_accepted_at(nodes, pred, point, ids, r),
{
    match r {
        Some(found) => {
            let j = choose|j: int|
                0 <= j < ids.len() && ids[j] == found && accept.ensures((found,), true) && forall|
                    k: int,
                | 0 <= k < j ==> accept.ensures((#[trigger] ids[k],), false);
            assert forall|k: int| 0 <= k < j implies rejected_at(nodes, pred, point, #[trigger] ids[k]) by {
                assert(accept.ensures((ids[k],), false));
            }
        },
        None => {
            assert forall|k: int| 0 <= k < ids.len() implies rejected_at(
                nodes,
                pred,
                point,
                #[trigger] ids[k],
            ) by {
                assert(accept.ensures((ids[k],), false));
            }
        },
    }
}

proof fn lemma_first_accepted_forward<F: Fn(usize) -> bool, G: Fn(usize) -> bool>(
    pred: F,
    forward: G,
    ids: Seq<usize>,
    r: Option<usize>,
)
    requires
        first_accepted(forward, ids, r),
        forall|x: usize, b: bool| #[trigger] forward.ensures((x,), b) ==> pred.ensures((x,), b),
    ensures
        first_accepted(pred, ids, r),
{
    match r {
        Some(found) => {
            let j = choose|j: int|
                0 <= j < ids.len() && ids[j] == found && forward.ensures((found,), true) && forall|
                    k: int,
                | 0 <= k < j ==> forward.ensures((#[trigger] ids[k],), false);
            assert forall|k: int| 0 <= k < j implies pred.ensures((#[trigger] ids[k],), false) by {
                assert(forward.ensures((ids[k],), false));
            }
        },
        None => {
            assert forall|k: int| 0 <= k < ids.len() implies pred.ensures((#[trigger] ids[k],), false) by {
                assert(forward.ensures((ids[k],), false));
            }
        },
    }
}

/// The point that a position stands for in a syntax tree: its line and
/// column through a protocol position, so beyond `u32` only the low bits
/// count.
pub open spec fn position_point(pos: Position) -> TsPoint {
    TsPoint { row: (pos.line as u32) as usize, column: (pos.col as u32) as usize }
}

/// What [`find_nearest`] returns, given the node it starts from.
///
/// 1. If the node contains the point and matches the predicate, the node.
/// 2. Otherwise, a child containing the point that matches.
/// 3. Otherwise, a descendant containing the point that matches, searched
///    breadth-first.
/// 4. Otherwise, an ancestor that matches.
///
/// A node outside of which the point lies yields the nearest ancestor that
/// contains the point and matches. Bounds are inclusive.
pub open spec fn nearest_found<F: Fn(usize) -> bool>(
    nodes: Seq<SyntaxNodeView>,
    node: usize,
    point: TsPoint,
    pred: F,
    r: Option<usize>,
) -> bool {
    if range_contains_point(nodes[node as int].range, point) {
        ||| r == Some(node) && pred.ensures((node,), true)
        ||| pred.ensures((node,), false) && {
            ||| r is Some && first_accepted_at(nodes, pred, point, nodes[node as int].children, r)
            ||| first_accepted_at(nodes, pred, point, nodes[node as int].children, None) && {
                ||| r is Some && first_accepted_at(nodes, pred, point, breadth_first(nodes, node), r)
                ||| first_accepted_at(nodes, pred, point, breadth_first(nodes, node), None)
                    && first_accepted(pred, ancestors(nodes, node), r)
            }
        }
    } else {
        first_accepted_at(nodes, pred, point, ancestors(nodes, node), r)
    }
}

/// Finds the nearest node at `pos` that also matches `pred`: the node
/// itself, else a child, else a descendant, else an ancestor (see
/// [`nearest_found`]).
pub fn find_nearest<F: Fn(usize) -> bool>(tree: &SyntaxTree, node: usize, pos: Position, pred: F) -> (r:
    Option<usize>)
    requires
        tree.wf(),
        node < tree@.len(),
        forall|n: usize| pred.requires((n,)),
    ensures
        nearest_found(tree@, node, position_point(pos), pred, r),
{
    find_nearest_inner(tree, node, pos.into_lsp(), pred)
}

fn find_nearest_inner<F: Fn(usize) -> bool>(
    tree: &SyntaxTree,
    node: usize,
    pos: LspPosition,
    pred: F,
) -> (r: Option<usize>)
    requires
        tree.wf(),
        node < tree@.len(),
        forall|n: usize| pred.requires((n,)),
    ensures
        nearest_found(
            tree@,
            node,
            TsPoint { row: pos.line as usize, column: pos.character as usize },
            pred,
            r,
        ),
{
    let ghost point = TsPoint { row: pos.line as usize, column: pos.character as usize };
    let ghost nodes = tree@;
    let pred_ref = &pred;
    let accept = |id: usize| -> (r: bool)
        requires
            forall|n: usize| pred_ref.requires((n,)),
        ensures
            r ==> accepted_at(tree@, *pred_ref, point, id),
            !r ==> rejected_at(tree@, *pred_ref, point, id),
        {
            if id < tree.len() {
                ts_range_contains_lsp_position(tree.range(id), pos) && pred_ref(id)
            } else {
                false
            }
        };
    if ts_range_contains_lsp_position(tree.range(node), pos) {
        if pred(node) {
            return Some(node);
        }
        let child = find_child(tree, node, accept);
        proof {
            lemma_first_accepted_at(nodes, pred, point, accept, nodes[node as int].children, child);
        }
        if child.is_some() {
            return child;
        }
        let descendant = find_descendant(tree, node, accept);
        proof {
            lemma_first_accepted_at(nodes, pred, point, accept, breadth_first(nodes, node), descendant);
        }
        if descendant.is_some() {
            return descendant;
        }
        let forward = |id: usize| -> (r: bool)
            requires
                forall|n: usize| pred_ref.requires((n,)),
            ensures
                pred_ref.ensures((id,), r),
            { pred_ref(id) };
        let ancestor = find_ancestor(tree, node, forward);
        proof {
            lemma_first_accepted_forward(pred, forward, ancestors(nodes, node), ancestor);
        }
        ancestor
    } else {
        let ancestor = find_ancestor(tree, node, accept);
        proof {
            lemma_first_accepted_at(nodes, pred, point, accept, ancestors(nodes, node), ancestor);
        }
        ancestor
    }
}

} // verus!
