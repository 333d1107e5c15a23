//! Coordinates, the in-bounds predicate, and the rigid five-node piece.

use vstd::prelude::*;
use crate::direction::{offset, Direction};

verus! {

/// A discrete 3D coordinate of the lattice; each component is valid in
/// `[0, 4]`, but out-of-range values are representable so that candidate
/// pieces may stick out before the bounds filter rejects them.
#[derive(Clone, Copy, Debug, PartialEq, Eq, Structural)]
pub struct Node(pub i8, pub i8, pub i8);

impl View for Node {
    type V = (int, int, int);

    open spec fn view(&self) -> (int, int, int) {
        (self.0 as int, self.1 as int, self.2 as int)
    }
}

/// Whether a coordinate lies inside the fixed 5x5x5 lattice.
pub open spec fn in_lattice(c: (int, int, int)) -> bool {
    &&& 0 <= c.0 < 5
    &&& 0 <= c.1 < 5
    &&& 0 <= c.2 < 5
}

/// Node `k` of the piece rooted at `root` and oriented by `d`.
pub open spec fn node_at(root: (int, int, int), d: Direction, k: int) -> (int, int, int) {
    (root.0 + offset(d, k).0, root.1 + offset(d, k).1, root.2 + offset(d, k).2)
}

/// Whether the whole piece `(root, d)` lies inside the lattice.
pub open spec fn piece_fits(root: (int, int, int), d: Direction) -> bool {
    forall|k: int| 0 <= k < 5 ==> in_lattice(#[trigger] node_at(root, d, k))
}

/// Whether the piece `(root, d)` covers the coordinate `c`.
pub open spec fn covers(root: (int, int, int), d: Direction, c: (int, int, int)) -> bool {
    exists|k: int| 0 <= k < 5 && #[trigger] node_at(root, d, k) == c
}

/// Whether the pieces `(r1, d1)` and `(r2, d2)` share a coordinate.
pub open spec fn pieces_overlap(
    r1: (int, int, int),
    d1: Direction,
    r2: (int, int, int),
    d2: Direction,
) -> bool {
    exists|a: int, b: int|
        0 <= a < 5 && 0 <= b < 5 && #[trigger] node_at(r1, d1, a) == #[trigger] node_at(r2, d2, b)
}

/// Two pieces overlap exactly when some coordinate is covered by both.
pub proof fn lemma_overlap_iff_common_cell(
    r1: (int, int, int),
    d1: Direction,
    r2: (int, int, int),
    d2: Direction,
)
    ensures
        pieces_overlap(r1, d1, r2, d2) <==> exists|c: (int, int, int)|
            #[trigger] covers(r1, d1, c) && covers(r2, d2, c),
{
    if pieces_overlap(r1, d1, r2, d2) {
        let (a, b) = choose|a: int, b: int|
            0 <= a < 5 && 0 <= b < 5 && #[trigger] node_at(r1, d1, a) == #[trigger] node_at(
                r2,
                d2,
                b,
            );
        let c = node_at(r1, d1, a);
        assert(covers(r1, d1, c));
        assert(covers(r2, d2, c));
    }
    if exists|c: (int, int, int)| #[trigger] covers(r1, d1, c) && covers(r2, d2, c) {
        let c = choose|c: (int, int, int)| #[trigger] covers(r1, d1, c) && covers(r2, d2, c);
        let a = choose|a: int| 0 <= a < 5 && #[trigger] node_at(r1, d1, a) == c;
        let b = choose|b: int| 0 <= b < 5 && #[trigger] node_at(r2, d2, b) == c;
        assert(0 <= a < 5 && 0 <= b < 5 && node_at(r1, d1, a) == node_at(r2, d2, b));
    }
}

/// The five nodes of one piece are pairwise distinct.
pub proof fn lemma_piece_nodes_distinct(root: (int, int, int), d: Direction)
    ensures
        forall|a: int, b: int| 0 <= a < b < 5 ==> node_at(root, d, a) != node_at(root, d, b),
{
    crate::direction::lemma_offsets_distinct(d);
}

impl Node {
    /// A node at the origin.
    pub fn new() -> (n: Node)
        ensures
            n@ == (0int, 0int, 0int),
    {
        Node(0, 0, 0)
    }

    /// Moves the node to the given coordinate.
    pub fn set_position(&mut self, x: i8, y: i8, z: i8)
        ensures
            *final(self) == (Node(x, y, z)),
    {
        *self = Node(x, y, z);
    }

    /// Whether the node lies inside the lattice.
    pub fn is_in_bounds(&self) -> (r: bool)
        ensures
            r == in_lattice(self@),
    {
        self.0 >= 0 && self.0 <= 4 && self.1 >= 0 && self.1 <= 4 && self.2 >= 0 && self.2 <= 4
    }
}

/// A rigid five-node piece: a root node plus four nodes displaced by the
/// offsets of its orientation.  The dependent nodes are recomputed whenever
/// the root or the orientation changes.
#[derive(Clone, Copy, Debug)]
pub struct Piece {
    pub nodes: [Node; 5],
    pub direction: Direction,
}

impl Piece {
    /// The root coordinate.
    pub open spec fn root(self) -> (int, int, int) {
        self.nodes@[0]@
    }

    /// The root lies far enough from the `i8` range ends that adding any
    /// offset cannot overflow.
    pub open spec fn root_in_range(self) -> bool {
        &&& -125 <= self.root().0 <= 124
        &&& -125 <= self.root().1 <= 124
        &&& -125 <= self.root().2 <= 124
    }

    /// The piece is internally consistent: every node equals the root
    /// displaced by the offset of its slot.
    pub open spec fn wf(self) -> bool {
        &&& self.root_in_range()
        &&& forall|k: int| 0 <= k < 5 ==> (#[trigger] self.nodes@[k])@
            == node_at(self.root(), self.direction, k)
    }

    /// A piece rooted at the origin, oriented forward-up.
    pub fn new() -> (p: Piece)
        ensures
            p.wf(),
            p.root() == (0int, 0int, 0int),
            p.direction == Direction::ForwardUp,
    {
        let mut p = Piece { nodes: [Node(0, 0, 0); 5], direction: Direction::ForwardUp };
        p.update_nodes();
        p
    }

    /// Moves the root to the given coordinate and recomputes the dependent
    /// nodes.
    pub fn set_position(&mut self, x: i8, y: i8, z: i8)
        requires
            -125 <= x <= 124,
            -125 <= y <= 124,
            -125 <= z <= 124,
        ensures
            final(self).wf(),
            final(self).root() == (x as int, y as int, z as int),
            final(self).direction == old(self).direction,
    {
        self.nodes[0] = Node(x, y, z);
        self.update_nodes();
    }

    /// Reorients the piece and recomputes the dependent nodes.
    pub fn set_direction(&mut self, direction: Direction)
        requires
            old(self).root_in_range(),
        ensures
            final(self).wf(),
            final(self).root() == old(self).root(),
            final(self).direction == direction,
    {
        self.direction = direction;
        self.update_nodes();
    }

    /// Recomputes the four dependent nodes from the root and orientation.
    pub fn update_nodes(&mut self)
        requires
            old(self).root_in_range(),
        ensures
            final(self).wf(),
            final(self).root() == old(self).root(),
            final(self).direction == old(self).direction,
    {
        let offsets = self.direction.get_node_offsets();
        let root_node = self.nodes[0];
        for i in 1..5
            invariant
                self.nodes@[0] == root_node,
                root_node == old(self).nodes@[0],
                self.direction == old(self).direction,
                old(self).root_in_range(),
                forall|k: int| 0 <= k < 5 ==> ((#[trigger] offsets@[k]).0 as int,
                    offsets@[k].1 as int, offsets@[k].2 as int) == offset(self.direction, k),
                forall|k: int| 1 <= k < i ==> (#[trigger] self.nodes@[k])@
                    == node_at(old(self).root(), self.direction, k),
        {
            proof {
                crate::direction::lemma_offset_small(self.direction, i as int);
            }
            self.nodes[i] = Node(
                root_node.0 + offsets[i].0,
                root_node.1 + offsets[i].1,
                root_node.2 + offsets[i].2,
            );
        }
        proof {
            crate::direction::lemma_offset_root(self.direction);
        }
    }

    /// Whether this piece shares a coordinate with `piece`.
    pub fn overlaps(&self, piece: Piece) -> (r: bool)
        requires
            self.wf(),
            piece.wf(),
        ensures
            r == pieces_overlap(self.root(), self.direction, piece.root(), piece.direction),
    {
        let mut a: usize = 0;
        while a < 5
            invariant
                a <= 5,
                self.wf(),
                piece.wf(),
                forall|i: int, j: int| 0 <= i < a && 0 <= j < 5 ==> node_at(
                    self.root(),
                    self.direction,
                    i,
                ) != node_at(piece.root(), piece.direction, j),
            decreases 5 - a,
        {
            let mut b: usize = 0;
            while b < 5
                invariant
                    a < 5,
                    b <= 5,
                    self.wf(),
                    piece.wf(),
                    forall|j: int| 0 <= j < b ==> node_at(self.root(), self.direction, a as int)
                        != node_at(piece.root(), piece.direction, j),
                decreases 5 - b,
            {
                if self.nodes[a] == piece.nodes[b] {
                    assert(node_at(self.root(), self.direction, a as int)
                        == node_at(piece.root(), piece.direction, b as int));
                    return true;
                }
                b += 1;
            }
            a += 1;
        }
        false
    }

    /// Whether all five nodes lie inside the lattice.
    pub fn is_in_bounds(&self) -> (r: bool)
        requires
            self.wf(),
        ensures
            r == piece_fits(self.root(), self.direction),
    {
        let mut k: usize = 0;
        while k < 5
            invariant
                k <= 5,
                self.wf(),
                forall|i: int| 0 <= i < k ==> in_lattice(
                    #[trigger] node_at(self.root(), self.direction, i),
                ),
            decreases 5 - k,
        {
            if !self.nodes[k].is_in_bounds() {
                return false;
            }
            k += 1;
        }
        true
    }
}

} // verus!

