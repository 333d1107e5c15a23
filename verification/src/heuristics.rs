//! Per-cell bookkeeping and the counting model behind the two heuristics.
//!
//! The lattice is a flat sequence of 125 cells in (x outer, y middle,
//! z inner) order.  The direction heuristic of a cell is modelled as the
//! number of filled slots of its `available_directions` list; the position
//! heuristic as the number of recorded (root, direction) candidates, over
//! the whole lattice, whose piece covers the cell.

use vstd::prelude::*;
use crate::direction::{dir_at, Direction};
use crate::piece::{covers, in_lattice, node_at, piece_fits, Node};

verus! {

/// Number of cells of the lattice.
pub const CELL_COUNT: usize = 125;

/// Capacity of a cell's list of still-usable orientations; 12 is an upper
/// bound on how many of the 24 orientations can fit from any single root.
pub const SLOT_COUNT: usize = 12;

/// Coordinates of the cell at linear index `i`.
pub open spec fn pos_of(i: int) -> (int, int, int) {
    (i / 25, (i % 25) / 5, i % 5)
}

/// Linear index of the cell at coordinates `c`.
pub open spec fn idx_of(c: (int, int, int)) -> int {
    c.0 * 25 + c.1 * 5 + c.2
}

/// Linear indexing is a bijection between `[0, 125)` and the lattice.
pub proof fn lemma_lattice_index(i: int)
    requires
        0 <= i < 125,
    ensures
        in_lattice(pos_of(i)),
        idx_of(pos_of(i)) == i,
{
    assert(in_lattice(pos_of(i)) && idx_of(pos_of(i)) == i) by (nonlinear_arith)
        requires 0 <= i < 125;
}

/// Converse of [`lemma_lattice_index`].
pub proof fn lemma_lattice_coord(c: (int, int, int))
    requires
        in_lattice(c),
    ensures
        0 <= idx_of(c) < 125,
        pos_of(idx_of(c)) == c,
{
    assert(0 <= idx_of(c) < 125 && pos_of(idx_of(c)) == c) by (nonlinear_arith)
        requires in_lattice(c);
}

/// One lattice coordinate's bookkeeping: occupancy, its label, the two
/// heuristic counters, and the orientations still usable from this root.
/// An emptied slot is never reused, so the list order is stable.
#[derive(Clone, Copy, Debug)]
pub struct CubeNode {
    pub position: Node,
    pub position_heuristic: u16,
    pub direction_heuristic: u8,
    pub available_directions: [Option<Direction>; 12],
    pub is_occupied: bool,
    pub occupied_letter: char,
}

impl CubeNode {
    /// A fresh, unoccupied cell at the origin with empty bookkeeping.
    pub fn new() -> (n: CubeNode)
        ensures
            n.position@ == (0int, 0int, 0int),
            n.position_heuristic == 0,
            n.direction_heuristic == 0,
            forall|j: int| 0 <= j < 12 ==> #[trigger] n.available_directions@[j] is None,
            !n.is_occupied,
            n.occupied_letter == ' ',
    {
        let n = CubeNode {
            position: Node(0, 0, 0),
            position_heuristic: 0,
            direction_heuristic: 0,
            available_directions: [None; 12],
            is_occupied: false,
            occupied_letter: ' ',
        };
        n
    }

    /// Records the cell's own coordinate.
    pub fn set_position(&mut self, x: i8, y: i8, z: i8)
        ensures
            *final(self) == (CubeNode { position: Node(x, y, z), ..*old(self) }),
    {
        self.position = Node(x, y, z);
    }
}

/// Number of filled slots among the first `j` entries.
pub open spec fn count_some(slots: Seq<Option<Direction>>, j: int) -> int
    decreases j,
{
    if j <= 0 {
        0
    } else {
        count_some(slots, j - 1) + (if slots[j - 1] is Some { 1int } else { 0 })
    }
}

/// `count_some` lies between 0 and `j`.
pub proof fn lemma_count_some_bounds(slots: Seq<Option<Direction>>, j: int)
    ensures
        0 <= count_some(slots, j),
        count_some(slots, j) <= (if j <= 0 { 0int } else { j }),
    decreases j,
{
    if j > 0 {
        lemma_count_some_bounds(slots, j - 1);
    }
}

/// With no filled slot below `j`, `count_some` is zero.
pub proof fn lemma_count_none_zero(slots: Seq<Option<Direction>>, j: int)
    requires
        forall|j2: int| 0 <= j2 < j ==> #[trigger] slots[j2] is None,
    ensures
        count_some(slots, j) == 0,
    decreases j,
{
    if j > 0 {
        lemma_count_none_zero(slots, j - 1);
    }
}

/// A positive `count_some` exhibits a filled slot.
pub proof fn lemma_count_some_nonzero(slots: Seq<Option<Direction>>, j: int)
    requires
        count_some(slots, j) >= 1,
    ensures
        exists|j0: int| 0 <= j0 < j && #[trigger] slots[j0] is Some,
    decreases j,
{
    if j > 0 {
        if slots[j - 1] is Some {
        } else {
            lemma_count_some_nonzero(slots, j - 1);
        }
    }
}

/// A filled slot below `j` forces `count_some` to be positive.
pub proof fn lemma_count_some_pos(slots: Seq<Option<Direction>>, j: int, j0: int)
    requires
        0 <= j0 < j,
        slots[j0] is Some,
    ensures
        count_some(slots, j) >= 1,
    decreases j,
{
    lemma_count_some_bounds(slots, j - 1);
    if j0 < j - 1 {
        lemma_count_some_pos(slots, j - 1, j0);
    }
}

/// Changing only slot `j0` changes `count_some` by the difference of the
/// two slots' fill indicators.
pub proof fn lemma_count_some_update(
    s1: Seq<Option<Direction>>,
    s2: Seq<Option<Direction>>,
    j0: int,
    j: int,
)
    requires
        forall|j2: int| 0 <= j2 < j && j2 != j0 ==> s1[j2] == s2[j2],
    ensures
        count_some(s2, j) - count_some(s1, j) == if 0 <= j0 < j {
            (if s2[j0] is Some { 1int } else { 0 }) - (if s1[j0] is Some { 1int } else { 0 })
        } else {
            0
        },
    decreases j,
{
    if j > 0 {
        lemma_count_some_update(s1, s2, j0, j - 1);
    }
}

/// Contribution of one slot of the cell rooted at `root` to the position
/// heuristic of coordinate `c`.
pub open spec fn slot_cover(slot: Option<Direction>, root: (int, int, int), c: (int, int, int)) -> int {
    match slot {
        Some(d) => if covers(root, d, c) { 1int } else { 0 },
        None => 0,
    }
}

/// Contribution of the first `j` slots of the cell rooted at `root` to the
/// position heuristic of `c`.
pub open spec fn cell_cover_count(
    slots: Seq<Option<Direction>>,
    root: (int, int, int),
    c: (int, int, int),
    j: int,
) -> int
    decreases j,
{
    if j <= 0 {
        0
    } else {
        cell_cover_count(slots, root, c, j - 1) + slot_cover(slots[j - 1], root, c)
    }
}

/// `cell_cover_count` lies between 0 and `j`.
pub proof fn lemma_cell_cover_bounds(
    slots: Seq<Option<Direction>>,
    root: (int, int, int),
    c: (int, int, int),
    j: int,
)
    ensures
        0 <= cell_cover_count(slots, root, c, j),
        cell_cover_count(slots, root, c, j) <= (if j <= 0 { 0int } else { j }),
    decreases j,
{
    if j > 0 {
        lemma_cell_cover_bounds(slots, root, c, j - 1);
    }
}

/// A cell with no filled slot contributes nothing.
pub proof fn lemma_cell_cover_none(
    slots: Seq<Option<Direction>>,
    root: (int, int, int),
    c: (int, int, int),
    j: int,
)
    requires
        forall|j2: int| 0 <= j2 < j ==> #[trigger] slots[j2] is None,
    ensures
        cell_cover_count(slots, root, c, j) == 0,
    decreases j,
{
    if j > 0 {
        lemma_cell_cover_none(slots, root, c, j - 1);
    }
}

/// A filled slot whose piece covers `c` forces the cell's contribution to
/// be positive.
pub proof fn lemma_cell_cover_pos(
    slots: Seq<Option<Direction>>,
    root: (int, int, int),
    c: (int, int, int),
    j: int,
    j0: int,
    d: Direction,
)
    requires
        0 <= j0 < j,
        slots[j0] == Some(d),
        covers(root, d, c),
    ensures
        cell_cover_count(slots, root, c, j) >= 1,
    decreases j,
{
    lemma_cell_cover_bounds(slots, root, c, j - 1);
    if j0 < j - 1 {
        lemma_cell_cover_pos(slots, root, c, j - 1, j0, d);
    }
}

/// Changing only slot `j0` changes the cell's contribution by the
/// difference of the two slots' cover indicators.
pub proof fn lemma_cell_cover_update(
    s1: Seq<Option<Direction>>,
    s2: Seq<Option<Direction>>,
    root: (int, int, int),
    c: (int, int, int),
    j0: int,
    j: int,
)
    requires
        forall|j2: int| 0 <= j2 < j && j2 != j0 ==> s1[j2] == s2[j2],
    ensures
        cell_cover_count(s2, root, c, j) - cell_cover_count(s1, root, c, j) == if 0 <= j0 < j {
            slot_cover(s2[j0], root, c) - slot_cover(s1[j0], root, c)
        } else {
            0
        },
    decreases j,
{
    if j > 0 {
        lemma_cell_cover_update(s1, s2, root, c, j0, j - 1);
    }
}

/// Position heuristic of coordinate `c` as counted over the first `n`
/// cells: the number of recorded candidates whose piece covers `c`.
pub open spec fn cover_count(cells: Seq<CubeNode>, c: (int, int, int), n: int) -> int
    decreases n,
{
    if n <= 0 {
        0
    } else {
        cover_count(cells, c, n - 1) + cell_cover_count(
            cells[n - 1].available_directions@,
            pos_of(n - 1),
            c,
            12,
        )
    }
}

/// `cover_count` lies between 0 and `12 * n`.
pub proof fn lemma_cover_count_bounds(cells: Seq<CubeNode>, c: (int, int, int), n: int)
    ensures
        0 <= cover_count(cells, c, n),
        cover_count(cells, c, n) <= (if n <= 0 { 0int } else { 12 * n }),
    decreases n,
{
    if n > 0 {
        lemma_cover_count_bounds(cells, c, n - 1);
        lemma_cell_cover_bounds(cells[n - 1].available_directions@, pos_of(n - 1), c, 12);
    }
}

/// Cells with equal slot lists contribute equally: the position heuristic
/// ignores every other field.
pub proof fn lemma_cover_count_congruence(
    s1: Seq<CubeNode>,
    s2: Seq<CubeNode>,
    c: (int, int, int),
    n: int,
)
    requires
        forall|i: int| 0 <= i < n ==> (#[trigger] s1[i]).available_directions@
            == s2[i].available_directions@,
    ensures
        cover_count(s1, c, n) == cover_count(s2, c, n),
    decreases n,
{
    if n > 0 {
        lemma_cover_count_congruence(s1, s2, c, n - 1);
    }
}

/// Changing the slot list of only cell `i0` changes `cover_count` by that
/// cell's contribution difference.
pub proof fn lemma_cover_count_update(
    s1: Seq<CubeNode>,
    s2: Seq<CubeNode>,
    c: (int, int, int),
    i0: int,
    n: int,
)
    requires
        forall|i: int| 0 <= i < n && i != i0 ==> (#[trigger] s1[i]).available_directions@
            == s2[i].available_directions@,
    ensures
        cover_count(s2, c, n) - cover_count(s1, c, n) == if 0 <= i0 < n {
            cell_cover_count(s2[i0].available_directions@, pos_of(i0), c, 12)
                - cell_cover_count(s1[i0].available_directions@, pos_of(i0), c, 12)
        } else {
            0
        },
    decreases n,
{
    if n > 0 {
        lemma_cover_count_update(s1, s2, c, i0, n - 1);
    }
}

/// A recorded candidate covering `c` forces a positive position count.
pub proof fn lemma_cover_count_pos(
    cells: Seq<CubeNode>,
    c: (int, int, int),
    n: int,
    i0: int,
    j0: int,
    d: Direction,
)
    requires
        0 <= i0 < n,
        0 <= j0 < 12,
        cells[i0].available_directions@[j0] == Some(d),
        covers(pos_of(i0), d, c),
    ensures
        cover_count(cells, c, n) >= 1,
    decreases n,
{
    lemma_cover_count_bounds(cells, c, n - 1);
    lemma_cell_cover_bounds(cells[n - 1].available_directions@, pos_of(n - 1), c, 12);
    if i0 < n - 1 {
        lemma_cover_count_pos(cells, c, n - 1, i0, j0, d);
    } else {
        lemma_cell_cover_pos(cells[i0].available_directions@, pos_of(i0), c, 12, j0, d);
    }
}

/// With every slot of every cell empty, nothing is counted anywhere.
pub proof fn lemma_cover_count_blank(cells: Seq<CubeNode>, c: (int, int, int), n: int)
    requires
        forall|i: int, j: int| 0 <= i < n && 0 <= j < 12
            ==> (#[trigger] cells[i].available_directions@[j]) is None,
    ensures
        cover_count(cells, c, n) == 0,
    decreases n,
{
    if n > 0 {
        lemma_cover_count_blank(cells, c, n - 1);
        lemma_cell_cover_none(cells[n - 1].available_directions@, pos_of(n - 1), c, 12);
    }
}

/// Number of orientations among the first `k` of the global order whose
/// piece fits the lattice when rooted at `root`.
pub open spec fn fits_count(root: (int, int, int), k: int) -> int
    decreases k,
{
    if k <= 0 {
        0
    } else {
        fits_count(root, k - 1) + (if piece_fits(root, dir_at(k - 1)) { 1int } else { 0 })
    }
}

/// `fits_count` is nonnegative, monotone, and grows by at most one per
/// direction.
pub proof fn lemma_fits_count_bounds(root: (int, int, int), a: int, b: int)
    requires
        a <= b,
    ensures
        fits_count(root, b) - fits_count(root, a) <= b - a,
        fits_count(root, a) <= fits_count(root, b),
    decreases b - a,
{
    if a < b {
        lemma_fits_count_bounds(root, a, b - 1);
    }
}

/// If no direction in `[a, b)` fits, the count does not grow there.
pub proof fn lemma_fits_count_flat(root: (int, int, int), a: int, b: int)
    requires
        a <= b,
        forall|k: int| a <= k < b ==> !piece_fits(root, #[trigger] dir_at(k)),
    ensures
        fits_count(root, b) == fits_count(root, a),
    decreases b - a,
{
    if a < b {
        lemma_fits_count_flat(root, a, b - 1);
    }
}

/// At most 12 of the 24 orientations fit from any root: of each opposite
/// pair of primary axes, the piece spans three cells along the axis, so at
/// most one of the two families of four can fit.
pub proof fn lemma_fits_count_le_12(root: (int, int, int))
    ensures
        fits_count(root, 24) <= 12,
{
    // Forward family (0..4) needs root.2 >= 3; Back family (8..12) needs
    // root.2 <= 1: node 4 displaces z by -3 and +3 respectively.
    assert forall|k: int| 0 <= k < 4 && piece_fits(root, #[trigger] dir_at(k)) implies root.2 >= 3 by {
        assert(in_lattice(node_at(root, dir_at(k), 4)));
    }
    assert forall|k: int| 8 <= k < 12 && piece_fits(root, #[trigger] dir_at(k)) implies root.2 <= 1 by {
        assert(in_lattice(node_at(root, dir_at(k), 4)));
    }
    // Right family (4..8) needs root.0 <= 1; Left family (12..16) needs
    // root.0 >= 3.
    assert forall|k: int| 4 <= k < 8 && piece_fits(root, #[trigger] dir_at(k)) implies root.0 <= 1 by {
        assert(in_lattice(node_at(root, dir_at(k), 4)));
    }
    assert forall|k: int| 12 <= k < 16 && piece_fits(root, #[trigger] dir_at(k)) implies root.0 >= 3 by {
        assert(in_lattice(node_at(root, dir_at(k), 4)));
    }
    // Up family (16..20) needs root.1 <= 1; Down family (20..24) needs
    // root.1 >= 3.
    assert forall|k: int| 16 <= k < 20 && piece_fits(root, #[trigger] dir_at(k)) implies root.1 <= 1 by {
        assert(in_lattice(node_at(root, dir_at(k), 4)));
    }
    assert forall|k: int| 20 <= k < 24 && piece_fits(root, #[trigger] dir_at(k)) implies root.1 >= 3 by {
        assert(in_lattice(node_at(root, dir_at(k), 4)));
    }
    lemma_fits_count_bounds(root, 0, 4);
    lemma_fits_count_bounds(root, 4, 8);
    lemma_fits_count_bounds(root, 8, 12);
    lemma_fits_count_bounds(root, 12, 16);
    lemma_fits_count_bounds(root, 16, 20);
    lemma_fits_count_bounds(root, 20, 24);
    if root.2 >= 3 {
        lemma_fits_count_flat(root, 8, 12);
    } else {
        lemma_fits_count_flat(root, 0, 4);
    }
    if root.0 <= 1 {
        lemma_fits_count_flat(root, 12, 16);
    } else {
        lemma_fits_count_flat(root, 4, 8);
    }
    if root.1 <= 1 {
        lemma_fits_count_flat(root, 20, 24);
    } else {
        lemma_fits_count_flat(root, 16, 20);
    }
}

/// Contribution of root `root` to the unconstrained position count of `c`:
/// the number of fitting orientations among the first `k` whose piece
/// covers `c`.
pub open spec fn dir_cover_count(root: (int, int, int), c: (int, int, int), k: int) -> int
    decreases k,
{
    if k <= 0 {
        0
    } else {
        dir_cover_count(root, c, k - 1) + (if piece_fits(root, dir_at(k - 1)) && covers(
            root,
            dir_at(k - 1),
            c,
        ) {
            1int
        } else {
            0
        })
    }
}

/// Position count of `c` over the full unconstrained enumeration of the
/// first `n` roots and all 24 orientations.
pub open spec fn init_cover_count(c: (int, int, int), n: int) -> int
    decreases n,
{
    if n <= 0 {
        0
    } else {
        init_cover_count(c, n - 1) + dir_cover_count(pos_of(n - 1), c, 24)
    }
}

/// When every cell's slots contribute exactly its unconstrained count, the
/// recorded total equals the unconstrained total.
pub proof fn lemma_cover_count_is_init(cells: Seq<CubeNode>, c: (int, int, int), n: int)
    requires
        forall|i: int| 0 <= i < n ==> cell_cover_count(
            (#[trigger] cells[i]).available_directions@,
            pos_of(i),
            c,
            12,
        ) == dir_cover_count(pos_of(i), c, 24),
    ensures
        cover_count(cells, c, n) == init_cover_count(c, n),
    decreases n,
{
    if n > 0 {
        lemma_cover_count_is_init(cells, c, n - 1);
    }
}

} // verus!
