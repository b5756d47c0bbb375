//! Hierarchical shape trees and the tree-vs-tree collision test.
//!
//! Each entity owns one tree of hitboxes shaped like its silhouette: the
//! root is the whole-entity bounding box and children refine it. The tree is
//! stored as an arena: node `i` keeps its box in `boxes[i]` and the arena
//! indices of its ordered children in `children[i]`; node 0 is the root and
//! every child index is strictly greater than its parent's, so the structure
//! is acyclic by construction.
//!
//! The collision test runs a cheap grid broad phase on the two root anchors
//! and then a coarse-to-fine narrow phase over two FIFO frontiers, one per
//! tree. The narrow phase is modelled exactly by the recursive spec function
//! [`search_collides`], and the executable test is proved to return precisely
//! what the model says.

use vstd::prelude::*;

verus! {

use std::collections::VecDeque;
use crate::hitbox::{Hitbox, Vec2, boxes_overlap, same_grid_region, get_grid_square};

/// Spec-level picture of one shape tree: the box of each node and the child
/// indices of each node, both indexed by arena position. Node 0 is the root.
pub struct TreeShape {
    pub boxes: Seq<Hitbox>,
    pub children: Seq<Seq<usize>>,
}

/// Structural well-formedness: at least the root exists, the two arenas line
/// up, and every child index points past its parent and into the arena.
pub open spec fn shape_wf(t: TreeShape) -> bool {
    &&& t.children.len() == t.boxes.len()
    &&& t.boxes.len() >= 1
    &&& forall|i: int, k: int|
        0 <= i < t.children.len() && 0 <= k < t.children[i].len() ==> i < #[trigger] t.children[i][k]
            < t.boxes.len()
}

/// A node is a leaf exactly when it has no children.
pub open spec fn is_leaf(t: TreeShape, i: int) -> bool {
    t.children[i].len() == 0
}

/// Every queue entry is a valid arena index.
pub open spec fn queue_wf(t: TreeShape, q: Seq<usize>) -> bool {
    forall|j: int| 0 <= j < q.len() ==> #[trigger] q[j] < t.boxes.len()
}

/// Number of frontier entries the narrow phase can ever derive from node
/// `i`: the node itself plus, recursively, all of its descendants.
pub open spec fn subtree_size(t: TreeShape, i: int) -> nat
    decreases t.boxes.len() - i, 1int, 0int,
        when shape_wf(t) && 0 <= i < t.boxes.len()
{
    1 + children_weight(t, i, 0)
}

/// Combined subtree size of the children of node `i` from position `k` on.
pub open spec fn children_weight(t: TreeShape, i: int, k: int) -> nat
    decreases t.boxes.len() - i, 0int, t.children[i].len() - k,
        when shape_wf(t) && 0 <= i < t.boxes.len() && 0 <= k <= t.children[i].len()
{
    if k == t.children[i].len() {
        0
    } else {
        subtree_size(t, t.children[i][k] as int) + children_weight(t, i, k + 1)
    }
}

/// Combined subtree size of all entries of a frontier queue.
pub open spec fn queue_weight(t: TreeShape, q: Seq<usize>) -> nat
    decreases q.len(),
{
    if q.len() == 0 {
        0
    } else {
        subtree_size(t, q[0] as int) + queue_weight(t, q.drop_first())
    }
}

proof fn lemma_queue_weight_concat(t: TreeShape, q1: Seq<usize>, q2: Seq<usize>)
    ensures
        queue_weight(t, q1 + q2) == queue_weight(t, q1) + queue_weight(t, q2),
    decreases q1.len(),
{
    if q1.len() == 0 {
        assert(q1 + q2 =~= q2);
    } else {
        assert((q1 + q2).drop_first() =~= q1.drop_first() + q2);
        assert((q1 + q2)[0] == q1[0]);
        lemma_queue_weight_concat(t, q1.drop_first(), q2);
    }
}

proof fn lemma_children_weight_suffix(t: TreeShape, i: int, k: int)
    requires
        shape_wf(t),
        0 <= i < t.boxes.len(),
        0 <= k <= t.children[i].len(),
    ensures
        children_weight(t, i, k) == queue_weight(
            t,
            t.children[i].subrange(k, t.children[i].len() as int),
        ),
    decreases t.children[i].len() - k,
{
    let c = t.children[i];
    if k == c.len() {
        assert(c.subrange(k, c.len() as int) =~= Seq::<usize>::empty());
    } else {
        lemma_children_weight_suffix(t, i, k + 1);
        assert(c.subrange(k, c.len() as int).drop_first() =~= c.subrange(k + 1, c.len() as int));
        assert(c.subrange(k, c.len() as int)[0] == c[k]);
    }
}

/// A node weighs one more than all of its children together.
proof fn lemma_subtree_unfold(t: TreeShape, i: int)
    requires
        shape_wf(t),
        0 <= i < t.boxes.len(),
    ensures
        subtree_size(t, i) == 1 + queue_weight(t, t.children[i]),
{
    lemma_children_weight_suffix(t, i, 0);
    assert(t.children[i].subrange(0, t.children[i].len() as int) =~= t.children[i]);
}

/// Replacing a queue's front entry by that entry's children shrinks the
/// queue's combined weight by exactly one.
proof fn lemma_queue_weight_expand(t: TreeShape, q: Seq<usize>)
    requires
        shape_wf(t),
        q.len() > 0,
        q[0] < t.boxes.len(),
    ensures
        queue_weight(t, q.drop_first() + t.children[q[0] as int]) + 1 == queue_weight(t, q),
{
    lemma_queue_weight_concat(t, q.drop_first(), t.children[q[0] as int]);
    lemma_subtree_unfold(t, q[0] as int);
}

/// Exact model of the dual-frontier narrow phase. `qa` and `qb` are the two
/// FIFO frontiers; each step looks at the two front nodes and either
/// confirms a leaf-level collision, refines the front node of one side into
/// its children, or discards one front entry.
pub open spec fn search_collides(a: TreeShape, b: TreeShape, qa: Seq<usize>, qb: Seq<usize>) -> bool
    decreases queue_weight(a, qa) + queue_weight(b, qb),
        when shape_wf(a) && shape_wf(b) && queue_wf(a, qa) && queue_wf(b, qb)
        via search_collides_decreases
{
    if qa.len() == 0 || qb.len() == 0 {
        false
    } else {
        let na = qa[0] as int;
        let nb = qb[0] as int;
        if boxes_overlap(a.boxes[na], b.boxes[nb]) {
            if is_leaf(a, na) && is_leaf(b, nb) {
                true
            } else if !is_leaf(b, nb) {
                search_collides(a, b, qa, qb.drop_first() + b.children[nb])
            } else {
                search_collides(a, b, qa.drop_first() + a.children[na], qb)
            }
        } else {
            if is_leaf(a, na) {
                search_collides(a, b, qa.drop_first(), qb)
            } else {
                search_collides(a, b, qa, qb.drop_first())
            }
        }
    }
}

#[via_fn]
proof fn search_collides_decreases(a: TreeShape, b: TreeShape, qa: Seq<usize>, qb: Seq<usize>) {
    if shape_wf(a) && shape_wf(b) && queue_wf(a, qa) && queue_wf(b, qb) && qa.len() > 0 && qb.len()
        > 0 {
        lemma_queue_weight_expand(a, qa);
        lemma_queue_weight_expand(b, qb);
        lemma_subtree_unfold(a, qa[0] as int);
        lemma_subtree_unfold(b, qb[0] as int);
    }
}

/// Queues whose entries are valid stay valid after dropping the front.
proof fn lemma_queue_wf_drop(t: TreeShape, q: Seq<usize>)
    requires
        queue_wf(t, q),
        q.len() > 0,
    ensures
        queue_wf(t, q.drop_first()),
{
    assert forall|j: int| 0 <= j < q.drop_first().len() implies #[trigger] q.drop_first()[j]
        < t.boxes.len() by {
        assert(q.drop_first()[j] == q[j + 1]);
    }
}

/// Expanding the front entry into its children keeps the queue valid.
proof fn lemma_queue_wf_expand(t: TreeShape, q: Seq<usize>)
    requires
        shape_wf(t),
        queue_wf(t, q),
        q.len() > 0,
    ensures
        queue_wf(t, q.drop_first() + t.children[q[0] as int]),
{
    let q2 = q.drop_first() + t.children[q[0] as int];
    assert forall|j: int| 0 <= j < q2.len() implies #[trigger] q2[j] < t.boxes.len() by {
        if j < q.drop_first().len() {
            assert(q2[j] == q[j + 1]);
        } else {
            assert(q2[j] == t.children[q[0] as int][j - q.drop_first().len()]);
        }
    }
}

/// The narrow phase only ever answers `true` because some leaf of one tree
/// geometrically overlaps some leaf of the other.
pub proof fn lemma_collision_has_leaf_witness(
    a: TreeShape,
    b: TreeShape,
    qa: Seq<usize>,
    qb: Seq<usize>,
)
    requires
        shape_wf(a),
        shape_wf(b),
        queue_wf(a, qa),
        queue_wf(b, qb),
        search_collides(a, b, qa, qb),
    ensures
        exists|i: int, j: int|
            0 <= i < a.boxes.len() && 0 <= j < b.boxes.len() && is_leaf(a, i) && is_leaf(b, j)
                && boxes_overlap(a.boxes[i], b.boxes[j]),
    decreases queue_weight(a, qa) + queue_weight(b, qb),
{
    let na = qa[0] as int;
    let nb = qb[0] as int;
    if boxes_overlap(a.boxes[na], b.boxes[nb]) && is_leaf(a, na) && is_leaf(b, nb) {
        assert(0 <= na < a.boxes.len() && 0 <= nb < b.boxes.len() && is_leaf(a, na) && is_leaf(
            b,
            nb,
        ) && boxes_overlap(a.boxes[na], b.boxes[nb]));
    } else {
        lemma_queue_weight_expand(a, qa);
        lemma_queue_weight_expand(b, qb);
        lemma_queue_wf_drop(a, qa);
        lemma_queue_wf_drop(b, qb);
        lemma_queue_wf_expand(a, qa);
        lemma_queue_wf_expand(b, qb);
        lemma_subtree_unfold(a, na);
        lemma_subtree_unfold(b, nb);
        if boxes_overlap(a.boxes[na], b.boxes[nb]) {
            if !is_leaf(b, nb) {
                lemma_collision_has_leaf_witness(a, b, qa, qb.drop_first() + b.children[nb]);
            } else {
                lemma_collision_has_leaf_witness(a, b, qa.drop_first() + a.children[na], qb);
            }
        } else {
            if is_leaf(a, na) {
                lemma_collision_has_leaf_witness(a, b, qa.drop_first(), qb);
            } else {
                lemma_collision_has_leaf_witness(a, b, qa, qb.drop_first());
            }
        }
    }
}

/// The whole tree-vs-tree collision predicate: the two root anchors must
/// map to grid cells at most one apart (broad phase), and the dual-frontier
/// narrow phase, started from the two roots, must confirm a leaf-level
/// overlap. The broad phase only looks at the root anchor points, so distant
/// cells rule a pair out even when the boxes themselves would touch.
pub open spec fn trees_collide(a: TreeShape, b: TreeShape) -> bool {
    &&& same_grid_region(a.boxes[0].point, b.boxes[0].point)
    &&& search_collides(a, b, seq![0usize], seq![0usize])
}

/// Two trees with no geometrically overlapping node pair at all never
/// collide, whatever the frontiers hold: the search always runs out of
/// candidates and answers `false`.
pub proof fn lemma_disjoint_trees_never_collide(
    a: TreeShape,
    b: TreeShape,
    qa: Seq<usize>,
    qb: Seq<usize>,
)
    requires
        shape_wf(a),
        shape_wf(b),
        queue_wf(a, qa),
        queue_wf(b, qb),
        forall|i: int, j: int|
            0 <= i < a.boxes.len() && 0 <= j < b.boxes.len() ==> !boxes_overlap(
                #[trigger] a.boxes[i],
                #[trigger] b.boxes[j],
            ),
    ensures
        !search_collides(a, b, qa, qb),
    decreases queue_weight(a, qa) + queue_weight(b, qb),
{
    if qa.len() == 0 || qb.len() == 0 {
    } else {
        let na = qa[0] as int;
        let nb = qb[0] as int;
        lemma_queue_weight_expand(a, qa);
        lemma_queue_weight_expand(b, qb);
        lemma_queue_wf_drop(a, qa);
        lemma_queue_wf_drop(b, qb);
        lemma_subtree_unfold(a, na);
        lemma_subtree_unfold(b, nb);
        if is_leaf(a, na) {
            lemma_disjoint_trees_never_collide(a, b, qa.drop_first(), qb);
        } else {
            lemma_disjoint_trees_never_collide(a, b, qa, qb.drop_first());
        }
    }
}

/// Anchors in grid cells more than one apart on some axis short-circuit the
/// whole test, whatever the detailed geometry says.
pub proof fn lemma_broad_phase_short_circuit(a: TreeShape, b: TreeShape)
    requires
        !same_grid_region(a.boxes[0].point, b.boxes[0].point),
    ensures
        !trees_collide(a, b),
{
}

/// Two trees without any overlapping node pair never collide.
pub proof fn lemma_disjoint_trees_collide_false(a: TreeShape, b: TreeShape)
    requires
        shape_wf(a),
        shape_wf(b),
        forall|i: int, j: int|
            0 <= i < a.boxes.len() && 0 <= j < b.boxes.len() ==> !boxes_overlap(
                #[trigger] a.boxes[i],
                #[trigger] b.boxes[j],
            ),
    ensures
        !trees_collide(a, b),
{
    lemma_disjoint_trees_never_collide(a, b, seq![0usize], seq![0usize]);
}

/// A reported collision always comes from a pair of overlapping leaves, one
/// in each tree.
pub proof fn lemma_collision_reported_at_leaves(a: TreeShape, b: TreeShape)
    requires
        shape_wf(a),
        shape_wf(b),
        trees_collide(a, b),
    ensures
        exists|i: int, j: int|
            0 <= i < a.boxes.len() && 0 <= j < b.boxes.len() && is_leaf(a, i) && is_leaf(b, j)
                && boxes_overlap(a.boxes[i], b.boxes[j]),
{
    lemma_collision_has_leaf_witness(a, b, seq![0usize], seq![0usize]);
}

/// For two root-only trees the test is exactly the broad phase conjoined
/// with the overlap of the two root boxes: a root without children is its
/// own leaf.
pub proof fn lemma_single_node_trees(a: TreeShape, b: TreeShape)
    requires
        shape_wf(a),
        shape_wf(b),
        a.boxes.len() == 1,
        b.boxes.len() == 1,
    ensures
        trees_collide(a, b) == (same_grid_region(a.boxes[0].point, b.boxes[0].point)
            && boxes_overlap(a.boxes[0], b.boxes[0])),
{
    assert(is_leaf(a, 0)) by {
        if a.children[0].len() > 0 {
            assert(0 < a.children[0][0] < 1);
        }
    }
    assert(is_leaf(b, 0)) by {
        if b.children[0].len() > 0 {
            assert(0 < b.children[0][0] < 1);
        }
    }
    reveal_with_fuel(search_collides, 3);
    assert(seq![0usize].drop_first() =~= Seq::<usize>::empty());
}

/// Trees whose root boxes do not overlap never collide: the first narrow
/// phase step discards a whole side and empties its frontier.
pub proof fn lemma_disjoint_roots_no_collision(a: TreeShape, b: TreeShape)
    requires
        shape_wf(a),
        shape_wf(b),
        !boxes_overlap(a.boxes[0], b.boxes[0]),
    ensures
        !trees_collide(a, b),
{
    reveal_with_fuel(search_collides, 3);
    assert(seq![0usize].drop_first() =~= Seq::<usize>::empty());
}

/// `b` is `a` with every box shifted by `d` and no size change.
pub open spec fn tree_translated(a: Seq<Hitbox>, b: Seq<Hitbox>, d: Vec2) -> bool {
    &&& b.len() == a.len()
    &&& forall|i: int|
        0 <= i < a.len() ==> (#[trigger] b[i]).point.x == a[i].point.x + d.x && b[i].point.y
            == a[i].point.y + d.y && b[i].size == a[i].size
}

/// Rigid translation composes: shifting by `d1` and then by `d2` lands every
/// node exactly where one shift by `d1 + d2` does.
pub proof fn lemma_translation_rigidity(
    a: Seq<Hitbox>,
    b: Seq<Hitbox>,
    c: Seq<Hitbox>,
    c2: Seq<Hitbox>,
    d1: Vec2,
    d2: Vec2,
    d: Vec2,
)
    requires
        d.x == d1.x + d2.x,
        d.y == d1.y + d2.y,
        tree_translated(a, b, d1),
        tree_translated(b, c, d2),
        tree_translated(a, c2, d),
    ensures
        c =~= c2,
{
    assert forall|i: int| 0 <= i < c.len() implies c[i] == c2[i] by {
        assert(c[i].point.x == c2[i].point.x);
        assert(c[i].point.y == c2[i].point.y);
        assert(c[i].point == c2[i].point);
    }
}

/// One entity's shape tree, stored as an arena: node `i` keeps its box in
/// `boxes[i]` and the indices of its children in `children[i]`. Node 0 is
/// the root; every child index is greater than its parent's index.
#[derive(Clone, Debug, PartialEq)]
pub struct HitboxTree {
    boxes: Vec<Hitbox>,
    children: Vec<Vec<usize>>,
}

impl View for HitboxTree {
    type V = TreeShape;

    closed spec fn view(&self) -> TreeShape {
        TreeShape { boxes: self.boxes@, children: self.children@.map_values(|c: Vec<usize>| c@) }
    }
}

impl HitboxTree {
    pub open spec fn wf(&self) -> bool {
        shape_wf(self@)
    }

    /// A tree holding only its root box.
    pub fn new(root: Hitbox) -> (t: HitboxTree)
        ensures
            t.wf(),
            t@.boxes =~= seq![root],
            t@.children =~= seq![Seq::<usize>::empty()],
    {
        let mut boxes: Vec<Hitbox> = Vec::new();
        boxes.push(root);
        let mut children: Vec<Vec<usize>> = Vec::new();
        children.push(Vec::new());
        let t = HitboxTree { boxes, children };
        proof {
            assert(t@.children =~= seq![Seq::<usize>::empty()]);
        }
        t
    }

    /// Attach a new leaf under `parent` and return its arena index. The tree
    /// shape is meant to be fixed at entity construction time; after the
    /// last `add_child` only rigid translation ever changes the tree.
    pub fn add_child(&mut self, parent: usize, hitbox: Hitbox) -> (idx: usize)
        requires
            old(self).wf(),
            parent < old(self)@.boxes.len(),
            old(self)@.boxes.len() < usize::MAX,
        ensures
            final(self).wf(),
            idx == old(self)@.boxes.len(),
            final(self)@.boxes =~= old(self)@.boxes.push(hitbox),
            final(self)@.children.len() == old(self)@.children.len() + 1,
            final(self)@.children[parent as int] =~= old(self)@.children[parent as int].push(idx),
            final(self)@.children[idx as int] =~= Seq::<usize>::empty(),
            forall|i: int|
                0 <= i < old(self)@.children.len() && i != parent ==> final(self)@.children[i]
                    == old(self)@.children[i],
    {
        let ghost orig = self@;
        let idx = self.boxes.len();
        self.boxes.push(hitbox);
        let mut kids = self.children.remove(parent);
        kids.push(idx);
        self.children.insert(parent, kids);
        self.children.push(Vec::new());
        proof {
            assert(self@.children[parent as int] =~= orig.children[parent as int].push(idx));
            assert(self@.children[idx as int] =~= Seq::<usize>::empty());
            assert forall|i: int|
                0 <= i < orig.children.len() && i != parent implies self@.children[i]
                == orig.children[i] by {
                assert(self.children@[i] == old(self).children@[i]);
            }
            assert(self.wf()) by {
                assert forall|i: int, k: int|
                    0 <= i < self@.children.len() && 0 <= k < self@.children[i].len() implies i
                    < #[trigger] self@.children[i][k] < self@.boxes.len() by {
                    if i == parent && k == self@.children[i].len() - 1 {
                    } else if i < orig.children.len() {
                        assert(orig.children[i][k] < orig.boxes.len());
                    }
                }
            }
        }
        idx
    }

    /// Number of nodes in the tree.
    pub fn node_count(&self) -> (n: usize)
        ensures
            n == self@.boxes.len(),
    {
        self.boxes.len()
    }

    /// The root node's box: the whole-entity bounding rectangle.
    pub fn root(&self) -> (r: Hitbox)
        requires
            self.wf(),
        ensures
            r == self@.boxes[0],
    {
        self.boxes[0]
    }

    /// Shift every box in the tree by `delta`. The relative geometry of the
    /// nodes is untouched: the tree moves as a rigid body.
    pub fn move_delta(&mut self, delta: Vec2)
        requires
            old(self).wf(),
            forall|i: int|
                0 <= i < old(self)@.boxes.len() ==> i32::MIN <= (
                #[trigger] old(self)@.boxes[i]).point.x + delta.x <= i32::MAX && i32::MIN <= old(
                    self,
                )@.boxes[i].point.y + delta.y <= i32::MAX,
        ensures
            final(self).wf(),
            final(self)@.children == old(self)@.children,
            tree_translated(old(self)@.boxes, final(self)@.boxes, delta),
    {
        let ghost orig = self@;
        let n = self.boxes.len();
        let mut i: usize = 0;
        while i < n
            invariant
                n == self.boxes@.len(),
                i <= n,
                self.children == old(self).children,
                self@.boxes.len() == orig.boxes.len(),
                forall|j: int|
                    0 <= j < orig.boxes.len() ==> i32::MIN <= (
                    #[trigger] orig.boxes[j]).point.x + delta.x <= i32::MAX && i32::MIN
                        <= orig.boxes[j].point.y + delta.y <= i32::MAX,
                forall|j: int|
                    i <= j < orig.boxes.len() ==> #[trigger] self@.boxes[j] == orig.boxes[j],
                forall|j: int|
                    0 <= j < i ==> (#[trigger] self@.boxes[j]).point.x == orig.boxes[j].point.x
                        + delta.x && self@.boxes[j].point.y == orig.boxes[j].point.y + delta.y
                        && self@.boxes[j].size == orig.boxes[j].size,
            decreases n - i,
        {
            let mut b = self.boxes[i];
            b.move_delta(delta);
            self.boxes.set(i, b);
            i = i + 1;
        }
        proof {
            assert(self@.children =~~= orig.children);
        }
    }

    /// Every box in the tree, one entry per node, in arena order (the order
    /// the nodes were created in). Each node is visited exactly once.
    pub fn bfs_iter(&self) -> (r: Vec<Hitbox>)
        ensures
            r@ =~= self@.boxes,
    {
        let mut r: Vec<Hitbox> = Vec::new();
        let n = self.boxes.len();
        let mut i: usize = 0;
        while i < n
            invariant
                n == self.boxes@.len(),
                i <= n,
                r@ =~= self@.boxes.subrange(0, i as int),
            decreases n - i,
        {
            r.push(self.boxes[i]);
            i = i + 1;
        }
        r
    }

    /// The whole hierarchical collision test between two entities' trees:
    /// grid broad phase on the root anchors, then the coarse-to-fine
    /// dual-frontier narrow phase. Returns exactly what the spec-level
    /// predicate `trees_collide` says.
    pub fn collides_with(&self, other: &HitboxTree) -> (r: bool)
        requires
            self.wf(),
            other.wf(),
        ensures
            r == trees_collide(self@, other@),
    {
        let ghost va = self@;
        let ghost vb = other@;
        let mut self_queue: VecDeque<usize> = VecDeque::new();
        let mut other_queue: VecDeque<usize> = VecDeque::new();
        self_queue.push_back(0);
        other_queue.push_back(0);
        proof {
            assert(self_queue@ =~= seq![0usize]);
            assert(other_queue@ =~= seq![0usize]);
        }
        // Broad phase: the two root anchors must fall in grid cells at most
        // one apart on both axes.
        let self_grid = get_grid_square(self.boxes[0].point);
        let other_grid = get_grid_square(other.boxes[0].point);
        let dx = self_grid.0 as i128 - other_grid.0 as i128;
        let dy = self_grid.1 as i128 - other_grid.1 as i128;
        if dx > 1 || dx < -1 || dy > 1 || dy < -1 {
            return false;
        }
        // Narrow phase: walk the two frontiers coarse-to-fine, looking for a
        // pair of overlapping leaves.
        while self_queue.len() > 0 && other_queue.len() > 0
            invariant
                self.wf(),
                other.wf(),
                va == self@,
                vb == other@,
                same_grid_region(va.boxes[0].point, vb.boxes[0].point),
                queue_wf(va, self_queue@),
                queue_wf(vb, other_queue@),
                search_collides(va, vb, self_queue@, other_queue@) == search_collides(
                    va,
                    vb,
                    seq![0usize],
                    seq![0usize],
                ),
            decreases queue_weight(va, self_queue@) + queue_weight(vb, other_queue@),
        {
            let ghost qa0 = self_queue@;
            let ghost qb0 = other_queue@;
            let a_idx = self_queue[0];
            let b_idx = other_queue[0];
            let a_box = self.boxes[a_idx];
            let b_box = other.boxes[b_idx];
            proof {
                lemma_queue_weight_expand(va, qa0);
                lemma_queue_weight_expand(vb, qb0);
                lemma_queue_wf_drop(va, qa0);
                lemma_queue_wf_drop(vb, qb0);
                lemma_queue_wf_expand(va, qa0);
                lemma_queue_wf_expand(vb, qb0);
                lemma_subtree_unfold(va, a_idx as int);
                lemma_subtree_unfold(vb, b_idx as int);
            }
            if a_box.collides_with(&b_box) {
                let a_leaf = self.children[a_idx].len() == 0;
                let b_leaf = other.children[b_idx].len() == 0;
                if a_leaf && b_leaf {
                    // A pair of overlapping leaves: the most specific
                    // collision available.
                    proof {
                        assert(search_collides(va, vb, qa0, qb0));
                    }
                    return true;
                } else if !b_leaf {
                    // The other node is refinable: explore its children.
                    let m = other.children[b_idx].len();
                    let mut k: usize = 0;
                    while k < m
                        invariant
                            other.wf(),
                            vb == other@,
                            b_idx < vb.children.len(),
                            m == vb.children[b_idx as int].len(),
                            k <= m,
                            other_queue@ =~= qb0 + vb.children[b_idx as int].subrange(
                                0,
                                k as int,
                            ),
                        decreases m - k,
                    {
                        other_queue.push_back(other.children[b_idx][k]);
                        k = k + 1;
                    }
                    other_queue.pop_front();
                    proof {
                        assert(other_queue@ =~= qb0.drop_first() + vb.children[b_idx as int]);
                    }
                } else {
                    // Only this side is refinable: explore this node's
                    // children.
                    let m = self.children[a_idx].len();
                    let mut k: usize = 0;
                    while k < m
                        invariant
                            self.wf(),
                            va == self@,
                            a_idx < va.children.len(),
                            m == va.children[a_idx as int].len(),
                            k <= m,
                            self_queue@ =~= qa0 + va.children[a_idx as int].subrange(0, k as int),
                        decreases m - k,
                    {
                        self_queue.push_back(self.children[a_idx][k]);
                        k = k + 1;
                    }
                    self_queue.pop_front();
                    proof {
                        assert(self_queue@ =~= qa0.drop_first() + va.children[a_idx as int]);
                    }
                }
            } else {
                // No overlap: discard this side's front entry if it is a
                // leaf, otherwise discard the other side's front entry. A
                // non-leaf is never discarded here, since a child of it may
                // still overlap.
                if self.children[a_idx].len() == 0 {
                    self_queue.pop_front();
                } else {
                    other_queue.pop_front();
                }
            }
        }
        false
    }
}

} // verus!
