//! The 5x5x5 lattice: initialization of the two heuristic tables, piece
//! placement with retraction of newly infeasible candidates, and greedy
//! selection of the next piece.

use vstd::prelude::*;
use vstd::string::StringExecFns;
use crate::direction::{dir_at, Direction};
use crate::heuristics::{
    cell_cover_count, count_some, cover_count, dir_cover_count, fits_count, idx_of,
    init_cover_count, lemma_cell_cover_update, lemma_count_some_pos, lemma_count_some_update,
    lemma_cover_count_bounds, lemma_cover_count_is_init, lemma_cover_count_pos,
    lemma_cover_count_update, lemma_fits_count_bounds, lemma_fits_count_le_12,
    lemma_lattice_coord, lemma_lattice_index, pos_of, CubeNode, CELL_COUNT, SLOT_COUNT,
};
use crate::piece::{
    covers, in_lattice, lemma_overlap_iff_common_cell, lemma_piece_nodes_distinct, node_at,
    piece_fits, pieces_overlap, Piece,
};

verus! {

/// An explicit failure of a lattice operation.
#[derive(Clone, Copy, Debug, PartialEq, Eq, Structural)]
pub enum CubeError {
    /// The piece to place sticks out of the lattice or overlaps an
    /// occupied cell.
    InvalidPlacement,
    /// The label alphabet is used up; no further piece can be labelled.
    LabelsExhausted,
}

/// The full lattice: 125 cells in (x outer, y middle, z inner) order plus
/// the label that the next placed piece will carry.
#[derive(Debug)]
pub struct Cube {
    pub cube_nodes: Vec<CubeNode>,
    pub current_letter: char,
}

impl Cube {
    /// The cells in linear scan order.
    pub open spec fn cells(self) -> Seq<CubeNode> {
        self.cube_nodes@
    }

    /// The cell at coordinate `c`.
    pub open spec fn cell_at(self, c: (int, int, int)) -> CubeNode {
        self.cells()[idx_of(c)]
    }

    /// Slot `j` of the available-direction list of cell `i`.
    pub open spec fn slot_at(self, i: int, j: int) -> Option<Direction> {
        self.cells()[i].available_directions@[j]
    }

    /// A filled slot records a candidate that still fits the lattice and
    /// touches no occupied cell.
    pub open spec fn slot_ok(self, i: int, j: int) -> bool {
        match self.slot_at(i, j) {
            Some(d) => piece_fits(pos_of(i), d) && forall|k: int| 0 <= k < 5
                ==> !self.cells()[idx_of(#[trigger] node_at(pos_of(i), d, k))].is_occupied,
            None => true,
        }
    }

    /// The lattice invariant: 125 cells that know their own coordinate,
    /// a direction heuristic equal to the number of filled slots, slots
    /// that only hold feasible candidates, and a position heuristic equal
    /// to the number of recorded candidates covering the cell.
    pub open spec fn wf(self) -> bool {
        &&& self.cells().len() == 125
        &&& forall|i: int| 0 <= i < 125 ==> (#[trigger] self.cells()[i]).position@ == pos_of(i)
        &&& forall|i: int| 0 <= i < 125 ==> (#[trigger] self.cells()[i]).direction_heuristic as int
            == count_some(self.cells()[i].available_directions@, 12)
        &&& forall|i: int, j: int| 0 <= i < 125 && 0 <= j < 12 ==> #[trigger] self.slot_ok(i, j)
        &&& forall|i: int| 0 <= i < 125 ==> (#[trigger] self.cells()[i]).position_heuristic as int
            == cover_count(self.cells(), pos_of(i), 125)
    }

    /// A fresh lattice with the heuristics of the full unconstrained piece
    /// enumeration and the label counter at `'A'`.
    pub fn new() -> (c: Cube)
        ensures
            c.wf(),
            c.current_letter == 'A',
            forall|i: int| 0 <= i < 125 ==> !(#[trigger] c.cells()[i]).is_occupied,
            forall|i: int| 0 <= i < 125 ==> (#[trigger] c.cells()[i]).occupied_letter == ' ',
            // the direction heuristic equals the count of in-bounds
            // orientations rooted at the cell, and never exceeds 12
            forall|i: int| 0 <= i < 125 ==> (#[trigger] c.cells()[i]).direction_heuristic as int
                == fits_count(pos_of(i), 24),
            forall|i: int| 0 <= i < 125 ==> (#[trigger] c.cells()[i]).direction_heuristic <= 12,
            // the position heuristic equals the count of unconstrained
            // placements covering the cell
            forall|i: int| 0 <= i < 125 ==> (#[trigger] c.cells()[i]).position_heuristic as int
                == init_cover_count(pos_of(i), 125),
    {
        let cube_nodes = Cube::initialize_heuristics();
        let c = Cube { cube_nodes, current_letter: 'A' };
        proof {
            assert forall|i: int| 0 <= i < 125 implies (#[trigger] c.cells()[i]).direction_heuristic
                <= 12 by {
                lemma_fits_count_le_12(pos_of(i));
                lemma_fits_count_bounds(pos_of(i), 0, 24);
            }
            assert forall|i: int, j: int| 0 <= i < 125 && 0 <= j < 12 implies #[trigger] c.slot_ok(
                i,
                j,
            ) by {
                if c.slot_at(i, j) is Some {
                    let d = c.slot_at(i, j)->0;
                    assert(slot_fits(c.cells()[i].available_directions@[j], pos_of(i)));
                    assert(piece_fits(pos_of(i), d));
                    assert forall|k: int| 0 <= k < 5 implies !c.cells()[idx_of(
                        #[trigger] node_at(pos_of(i), d, k),
                    )].is_occupied by {
                        assert(in_lattice(node_at(pos_of(i), d, k)));
                        lemma_lattice_coord(node_at(pos_of(i), d, k));
                    }
                }
            }
        }
        c
    }

    /// Builds the 125 cells and runs the full unconstrained enumeration:
    /// for every root and every orientation whose piece fits, the root's
    /// direction heuristic grows by one, the orientation is recorded in
    /// the root's next free slot, and the position heuristic of all five
    /// covered cells grows by one.
    pub fn initialize_heuristics() -> (v: Vec<CubeNode>)
        ensures
            v@.len() == 125,
            forall|i: int| 0 <= i < 125 ==> (#[trigger] v@[i]).position@ == pos_of(i),
            forall|i: int| 0 <= i < 125 ==> (#[trigger] v@[i]).direction_heuristic as int
                == fits_count(pos_of(i), 24),
            forall|i: int| 0 <= i < 125 ==> (#[trigger] v@[i]).direction_heuristic as int
                == count_some(v@[i].available_directions@, 12),
            forall|i: int, j: int| 0 <= i < 125 && 0 <= j < 12 ==> #[trigger] slot_fits(
                v@[i].available_directions@[j],
                pos_of(i),
            ),
            forall|i: int| 0 <= i < 125 ==> !(#[trigger] v@[i]).is_occupied,
            forall|i: int| 0 <= i < 125 ==> (#[trigger] v@[i]).occupied_letter == ' ',
            forall|i: int| 0 <= i < 125 ==> (#[trigger] v@[i]).position_heuristic as int
                == cover_count(v@, pos_of(i), 125),
            forall|i: int| 0 <= i < 125 ==> (#[trigger] v@[i]).position_heuristic as int
                == init_cover_count(pos_of(i), 125),
    {
        let mut v: Vec<CubeNode> = Vec::new();
        while v.len() < CELL_COUNT
            invariant
                v@.len() <= 125,
                forall|i: int| 0 <= i < v@.len() ==> is_blank_cell(#[trigger] v@[i]),
            decreases 125 - v@.len(),
        {
            v.push(CubeNode::new());
        }
        proof {
            assert forall|i2: int| 0 <= i2 < 125 implies (#[trigger] v@[i2]).direction_heuristic as int
                == count_some(v@[i2].available_directions@, 12) by {
                crate::heuristics::lemma_count_none_zero(v@[i2].available_directions@, 12);
            }
            assert forall|i2: int| 0 <= i2 < 125 implies (#[trigger] v@[i2]).position_heuristic as int
                == cover_count(v@, pos_of(i2), 125) by {
                crate::heuristics::lemma_cover_count_blank(v@, pos_of(i2), 125);
            }
        }
        let mut piece = Piece::new();
        let dirs = Direction::iterator();
        for i in 0..CELL_COUNT
            invariant
                v@.len() == 125,
                forall|k: int| 0 <= k < 24 ==> #[trigger] dirs@[k] == dir_at(k),
                // cells not yet reached are blank but for their position
                // heuristic, which earlier roots may already have raised
                forall|i2: int| i <= i2 < 125 ==> untouched_root(#[trigger] v@[i2]),
                // cells already processed
                forall|i2: int| 0 <= i2 < i ==> (#[trigger] v@[i2]).position@ == pos_of(i2),
                forall|i2: int| 0 <= i2 < i ==> (#[trigger] v@[i2]).direction_heuristic as int
                    == fits_count(pos_of(i2), 24),
                forall|i2: int, c: (int, int, int)| 0 <= i2 < i ==> #[trigger] cell_cover_count(
                    v@[i2].available_directions@,
                    pos_of(i2),
                    c,
                    12,
                ) == dir_cover_count(pos_of(i2), c, 24),
                // facts that hold of every cell throughout
                forall|i2: int| 0 <= i2 < 125 ==> (#[trigger] v@[i2]).direction_heuristic as int
                    == count_some(v@[i2].available_directions@, 12),
                forall|i2: int, j: int| 0 <= i2 < 125 && 0 <= j < 12 ==> #[trigger] slot_fits(
                    v@[i2].available_directions@[j],
                    pos_of(i2),
                ),
                forall|i2: int| 0 <= i2 < 125 ==> !(#[trigger] v@[i2]).is_occupied,
                forall|i2: int| 0 <= i2 < 125 ==> (#[trigger] v@[i2]).occupied_letter == ' ',
                forall|i2: int| 0 <= i2 < 125 ==> (#[trigger] v@[i2]).position_heuristic as int
                    == cover_count(v@, pos_of(i2), 125),
        {
            proof {
                lemma_lattice_index(i as int);
            }
            let xi = (i / 25) as i8;
            let yi = ((i % 25) / 5) as i8;
            let zi = (i % 5) as i8;
            let ghost pre = v@;
            let mut cell = v[i];
            cell.set_position(xi, yi, zi);
            v[i] = cell;
            proof {
                assert forall|i2: int| 0 <= i2 < 125 implies (#[trigger] v@[i2]).position_heuristic as int
                    == cover_count(v@, pos_of(i2), 125) by {
                    crate::heuristics::lemma_cover_count_congruence(pre, v@, pos_of(i2), 125);
                }
            }
            piece.set_position(xi, yi, zi);
            assert(piece.root() == pos_of(i as int));
            proof {
                crate::heuristics::lemma_count_some_bounds(v@[i as int].available_directions@, 12);
                assert forall|c: (int, int, int)| #[trigger] cell_cover_count(
                    v@[i as int].available_directions@,
                    pos_of(i as int),
                    c,
                    12,
                ) == dir_cover_count(pos_of(i as int), c, 0) by {
                    crate::heuristics::lemma_cell_cover_none(
                        v@[i as int].available_directions@,
                        pos_of(i as int),
                        c,
                        12,
                    );
                }
            }
            for k in 0..24usize
                invariant
                    v@.len() == 125,
                    0 <= i < 125,
                    forall|k2: int| 0 <= k2 < 24 ==> #[trigger] dirs@[k2] == dir_at(k2),
                    piece.wf(),
                    piece.root() == pos_of(i as int),
                    // the current root's progress
                    v@[i as int].position@ == pos_of(i as int),
                    v@[i as int].direction_heuristic as int == fits_count(pos_of(i as int), k as int),
                    forall|j: int| count_some(v@[i as int].available_directions@, 12) <= j < 12
                        ==> v@[i as int].available_directions@[j] is None,
                    forall|c: (int, int, int)| #[trigger] cell_cover_count(
                        v@[i as int].available_directions@,
                        pos_of(i as int),
                        c,
                        12,
                    ) == dir_cover_count(pos_of(i as int), c, k as int),
                    // untouched and processed cells as in the outer loop
                    forall|i2: int| i < i2 < 125 ==> untouched_root(#[trigger] v@[i2]),
                    forall|i2: int| 0 <= i2 < i ==> (#[trigger] v@[i2]).position@ == pos_of(i2),
                    forall|i2: int| 0 <= i2 < i ==> (#[trigger] v@[i2]).direction_heuristic as int
                        == fits_count(pos_of(i2), 24),
                    forall|i2: int, c: (int, int, int)| 0 <= i2 < i ==> #[trigger] cell_cover_count(
                        v@[i2].available_directions@,
                        pos_of(i2),
                        c,
                        12,
                    ) == dir_cover_count(pos_of(i2), c, 24),
                    forall|i2: int| 0 <= i2 < 125 ==> (#[trigger] v@[i2]).direction_heuristic as int
                        == count_some(v@[i2].available_directions@, 12),
                    forall|i2: int, j: int| 0 <= i2 < 125 && 0 <= j < 12 ==> #[trigger] slot_fits(
                        v@[i2].available_directions@[j],
                        pos_of(i2),
                    ),
                    forall|i2: int| 0 <= i2 < 125 ==> !(#[trigger] v@[i2]).is_occupied,
                    forall|i2: int| 0 <= i2 < 125 ==> (#[trigger] v@[i2]).occupied_letter == ' ',
                    forall|i2: int| 0 <= i2 < 125 ==> (#[trigger] v@[i2]).position_heuristic as int
                        == cover_count(v@, pos_of(i2), 125),
            {
                let d = dirs[k];
                piece.set_direction(d);
                if piece.is_in_bounds() {
                    let ghost root = pos_of(i as int);
                    proof {
                        lemma_fits_count_le_12(root);
                        lemma_fits_count_bounds(root, k as int + 1, 24);
                        crate::heuristics::lemma_count_some_bounds(
                            v@[i as int].available_directions@,
                            12,
                        );
                    }
                    let ghost pre1 = v@;
                    let mut cell = v[i];
                    let ai = cell.direction_heuristic as usize;
                    cell.available_directions[ai] = Some(d);
                    cell.direction_heuristic = cell.direction_heuristic + 1;
                    v[i] = cell;
                    proof {
                        lemma_count_some_update(
                            pre1[i as int].available_directions@,
                            v@[i as int].available_directions@,
                            ai as int,
                            12,
                        );
                        assert forall|c: (int, int, int)| #[trigger] cell_cover_count(
                            v@[i as int].available_directions@,
                            root,
                            c,
                            12,
                        ) == dir_cover_count(root, c, k as int) + slot_cover_ind(root, d, c) by {
                            lemma_cell_cover_update(
                                pre1[i as int].available_directions@,
                                v@[i as int].available_directions@,
                                root,
                                c,
                                ai as int,
                                12,
                            );
                        }
                        assert forall|i2: int| 0 <= i2 < 125 implies
                            (#[trigger] v@[i2]).position_heuristic as int
                            == cover_count(v@, pos_of(i2), 125) - slot_cover_ind(root, d, pos_of(i2)) by {
                            lemma_cover_count_update(pre1, v@, pos_of(i2), i as int, 125);
                            lemma_cell_cover_update(
                                pre1[i as int].available_directions@,
                                v@[i as int].available_directions@,
                                root,
                                pos_of(i2),
                                ai as int,
                                12,
                            );
                        }
                    }
                    let ghost base = v@;
                    // raise the position heuristic of the five covered cells
                    for t in 0..5usize
                        invariant
                            v@.len() == 125,
                            base.len() == 125,
                            0 <= i < 125,
                            piece.wf(),
                            piece.root() == pos_of(i as int),
                            piece.direction == d,
                            piece_fits(pos_of(i as int), d),
                            forall|i2: int| 0 <= i2 < 125 ==>
                                (#[trigger] v@[i2]).position_heuristic as int
                                == cover_count(v@, pos_of(i2), 125)
                                - pending_cover(pos_of(i as int), d, t as int, i2),
                            // only the position heuristics change in this pass
                            forall|i2: int| 0 <= i2 < 125 ==> (#[trigger] v@[i2]).available_directions@
                                == base[i2].available_directions@,
                            forall|i2: int| 0 <= i2 < 125 ==> (#[trigger] v@[i2]).position
                                == base[i2].position,
                            forall|i2: int| 0 <= i2 < 125 ==> (#[trigger] v@[i2]).direction_heuristic
                                == base[i2].direction_heuristic,
                            forall|i2: int| 0 <= i2 < 125 ==> !(#[trigger] v@[i2]).is_occupied,
                            forall|i2: int| 0 <= i2 < 125 ==> (#[trigger] v@[i2]).occupied_letter == ' ',
                    {
                        let n = piece.nodes[t];
                        proof {
                            assert(in_lattice(node_at(pos_of(i as int), d, t as int)));
                            lemma_lattice_coord(node_at(pos_of(i as int), d, t as int));
                        }
                        let ci = (n.0 as usize) * 25 + (n.1 as usize) * 5 + (n.2 as usize);
                        let ghost pre2 = v@;
                        let mut cn = v[ci];
                        proof {
                            lemma_cover_count_bounds(v@, pos_of(ci as int), 125);
                        }
                        cn.position_heuristic = cn.position_heuristic + 1;
                        v[ci] = cn;
                        proof {
                            lemma_piece_nodes_distinct(pos_of(i as int), d);
                            assert forall|i2: int| 0 <= i2 < 125 implies
                                (#[trigger] v@[i2]).position_heuristic as int
                                == cover_count(v@, pos_of(i2), 125)
                                - pending_cover(pos_of(i as int), d, t as int + 1, i2) by {
                                crate::heuristics::lemma_cover_count_congruence(
                                    pre2,
                                    v@,
                                    pos_of(i2),
                                    125,
                                );
                                lemma_pending_step(pos_of(i as int), d, t as int, i2, ci as int);
                            }
                        }
                    }
                    proof {
                        assert forall|i2: int| 0 <= i2 < 125 implies
                            (#[trigger] v@[i2]).position_heuristic as int
                            == cover_count(v@, pos_of(i2), 125) by {
                            lemma_pending_done(pos_of(i as int), d, i2);
                        }
                    }
                } else {
                    proof {
                        assert(fits_count(pos_of(i as int), k as int + 1)
                            == fits_count(pos_of(i as int), k as int));
                    }
                }
            }
        }
        proof {
            assert forall|i: int| 0 <= i < 125 implies (#[trigger] v@[i]).position_heuristic as int
                == init_cover_count(pos_of(i), 125) by {
                lemma_cover_count_is_init(v@, pos_of(i), 125);
            }
        }
        v
    }
}

/// Whether `p` may legally be placed on `c`: it fits the lattice and
/// touches no occupied cell.
pub open spec fn placeable(c: Cube, p: Piece) -> bool {
    &&& piece_fits(p.root(), p.direction)
    &&& forall|k: int| 0 <= k < 5
        ==> !c.cells()[idx_of(#[trigger] node_at(p.root(), p.direction, k))].is_occupied
}

/// What one retraction pass for the piece `(proot, pd)` leaves of a slot:
/// an overlapping candidate is emptied, everything else is kept.
pub open spec fn retract_slot(
    slot: Option<Direction>,
    root: (int, int, int),
    proot: (int, int, int),
    pd: Direction,
) -> Option<Direction> {
    match slot {
        Some(d) => if pieces_overlap(root, d, proot, pd) {
            None
        } else {
            slot
        },
        None => None,
    }
}

/// Whether cell `ci` lies under one of the first `t` nodes of the piece
/// `(root, d)`.
pub open spec fn covered_before(root: (int, int, int), d: Direction, t: int, ci: int) -> bool {
    exists|t2: int| 0 <= t2 < t && idx_of(#[trigger] node_at(root, d, t2)) == ci
}

impl Cube {
    /// Places `piece`: marks its five cells occupied under the current
    /// label, advances the label, and retracts every recorded candidate
    /// that overlaps the placed piece.  An invalid placement or an
    /// exhausted label alphabet is rejected and leaves the lattice
    /// untouched.
    pub fn place_piece(&mut self, piece: Piece) -> (r: Result<(), CubeError>)
        requires
            old(self).wf(),
            piece.wf(),
        ensures
            final(self).wf(),
            r == Err::<(), CubeError>(CubeError::InvalidPlacement) <==> !placeable(
                *old(self),
                piece,
            ),
            r == Err::<(), CubeError>(CubeError::LabelsExhausted) <==> placeable(*old(self), piece)
                && !(65 <= old(self).current_letter as int <= 90),
            r is Err ==> *final(self) == *old(self),
            r is Ok ==> {
                &&& final(self).current_letter as int == old(self).current_letter as int + 1
                &&& forall|i: int| 0 <= i < 125 ==> ((#[trigger] final(self).cells()[i]).is_occupied
                    <==> old(self).cells()[i].is_occupied || covers(
                        piece.root(),
                        piece.direction,
                        pos_of(i),
                    ))
                &&& forall|i: int| 0 <= i < 125 ==> (#[trigger] final(self).cells()[i]).occupied_letter
                    == if covers(piece.root(), piece.direction, pos_of(i)) {
                        old(self).current_letter
                    } else {
                        old(self).cells()[i].occupied_letter
                    }
                &&& forall|i: int, j: int| 0 <= i < 125 && 0 <= j < 12
                    ==> #[trigger] final(self).slot_at(i, j) == retract_slot(
                        old(self).slot_at(i, j),
                        pos_of(i),
                        piece.root(),
                        piece.direction,
                    )
                &&& forall|i: int, j: int| 0 <= i < 125 && 0 <= j < 12
                    ==> match #[trigger] final(self).slot_at(i, j) {
                        Some(d) => !pieces_overlap(pos_of(i), d, piece.root(), piece.direction),
                        None => true,
                    }
            },
    {
        let ghost proot = piece.root();
        let ghost pd = piece.direction;
        if !piece.is_in_bounds() {
            return Err(CubeError::InvalidPlacement);
        }
        for t in 0..5usize
            invariant
                self.wf(),
                *self == *old(self),
                piece.wf(),
                piece_fits(proot, pd),
                proot == piece.root(),
                pd == piece.direction,
                forall|k: int| 0 <= k < t
                    ==> !self.cells()[idx_of(#[trigger] node_at(proot, pd, k))].is_occupied,
        {
            let n = piece.nodes[t];
            proof {
                assert(in_lattice(node_at(proot, pd, t as int)));
                lemma_lattice_coord(node_at(proot, pd, t as int));
            }
            let ci = (n.0 as usize) * 25 + (n.1 as usize) * 5 + (n.2 as usize);
            if self.cube_nodes[ci].is_occupied {
                return Err(CubeError::InvalidPlacement);
            }
        }
        let letter = self.current_letter;
        let lu = letter as u32;
        if lu < 65 || lu > 90 {
            return Err(CubeError::LabelsExhausted);
        }
        // mark the five covered cells occupied under the current label
        let ghost pre = *self;
        for t in 0..5usize
            invariant
                self.cells().len() == 125,
                piece.wf(),
                piece_fits(proot, pd),
                proot == piece.root(),
                pd == piece.direction,
                letter == pre.current_letter,
                self.current_letter == pre.current_letter,
                pre.wf(),
                placeable(pre, piece),
                65 <= pre.current_letter as int <= 90,
                forall|i: int| 0 <= i < 125 ==> ((#[trigger] self.cells()[i]).is_occupied
                    <==> pre.cells()[i].is_occupied || covered_before(proot, pd, t as int, i)),
                forall|i: int| 0 <= i < 125 ==> (#[trigger] self.cells()[i]).occupied_letter
                    == if covered_before(proot, pd, t as int, i) {
                        pre.current_letter
                    } else {
                        pre.cells()[i].occupied_letter
                    },
                forall|i: int| 0 <= i < 125 ==> (#[trigger] self.cells()[i]).position
                    == pre.cells()[i].position,
                forall|i: int| 0 <= i < 125 ==> (#[trigger] self.cells()[i]).position_heuristic
                    == pre.cells()[i].position_heuristic,
                forall|i: int| 0 <= i < 125 ==> (#[trigger] self.cells()[i]).direction_heuristic
                    == pre.cells()[i].direction_heuristic,
                forall|i: int| 0 <= i < 125 ==> (#[trigger] self.cells()[i]).available_directions@
                    == pre.cells()[i].available_directions@,
        {
            let n = piece.nodes[t];
            proof {
                assert(in_lattice(node_at(proot, pd, t as int)));
                lemma_lattice_coord(node_at(proot, pd, t as int));
            }
            let ci = (n.0 as usize) * 25 + (n.1 as usize) * 5 + (n.2 as usize);
            let mut cn = self.cube_nodes[ci];
            cn.is_occupied = true;
            cn.occupied_letter = letter;
            self.cube_nodes[ci] = cn;
            proof {
                assert(idx_of(node_at(proot, pd, t as int)) == ci as int);
            }
        }
        self.current_letter = ((lu + 1) as u8) as char;
        proof {
            // after the five marks, coverage and marking coincide
            assert forall|i: int| 0 <= i < 125 implies (covered_before(proot, pd, 5, i) <==> covers(
                proot,
                pd,
                pos_of(i),
            )) by {
                lemma_lattice_index(i);
                if covered_before(proot, pd, 5, i) {
                    let t2 = choose|t2: int| 0 <= t2 < 5 && idx_of(
                        #[trigger] node_at(proot, pd, t2),
                    ) == i;
                    assert(in_lattice(node_at(proot, pd, t2)));
                    lemma_lattice_coord(node_at(proot, pd, t2));
                    assert(node_at(proot, pd, t2) == pos_of(i));
                }
                if covers(proot, pd, pos_of(i)) {
                    let k = choose|k: int| 0 <= k < 5 && #[trigger] node_at(proot, pd, k)
                        == pos_of(i);
                    assert(idx_of(node_at(proot, pd, k)) == i);
                }
            }
            // the position heuristics still count the unchanged slots
            assert forall|i: int| 0 <= i < 125 implies (#[trigger] self.cells()[i]).position_heuristic as int
                == cover_count(self.cells(), pos_of(i), 125) by {
                crate::heuristics::lemma_cover_count_congruence(
                    pre.cells(),
                    self.cells(),
                    pos_of(i),
                    125,
                );
            }
        }
        proof {
            assert forall|i: int, j: int| 0 <= i < 125 && 0 <= j < 12 implies #[trigger] slot_fits(
                self.slot_at(i, j),
                pos_of(i),
            ) by {
                assert(self.slot_at(i, j) == pre.slot_at(i, j));
                assert(pre.slot_ok(i, j));
            }
        }
        self.retract_overlapping(piece);
        proof {
            let ghost fin = *self;
            // a kept slot does not overlap the piece, hence avoids all its
            // cells and every previously occupied cell
            assert forall|i: int, j: int| 0 <= i < 125 && 0 <= j < 12 implies #[trigger] fin.slot_ok(
                i,
                j,
            ) by {
                if fin.slot_at(i, j) is Some {
                    let d = fin.slot_at(i, j)->0;
                    assert(fin.slot_at(i, j) == retract_slot(pre.slot_at(i, j), pos_of(i), proot, pd));
                    assert(pre.slot_at(i, j) == Some(d));
                    assert(!pieces_overlap(pos_of(i), d, proot, pd));
                    assert(pre.slot_ok(i, j));
                    lemma_overlap_iff_common_cell(pos_of(i), d, proot, pd);
                    assert forall|k: int| 0 <= k < 5 implies !fin.cells()[idx_of(
                        #[trigger] node_at(pos_of(i), d, k),
                    )].is_occupied by {
                        let c = node_at(pos_of(i), d, k);
                        assert(covers(pos_of(i), d, c));
                        assert(!covers(proot, pd, c));
                        assert(in_lattice(c));
                        lemma_lattice_coord(c);
                    }
                }
            }
        }
        Ok(())
    }

    /// One retraction pass: every recorded candidate that overlaps `piece`
    /// is removed from its root's list, the root's direction heuristic
    /// drops by one, and the position heuristic of the candidate's five
    /// cells drops by one.  Anything else is untouched, so repeating the
    /// pass for the same piece changes nothing.
    pub fn retract_overlapping(&mut self, piece: Piece)
        requires
            piece.wf(),
            old(self).cells().len() == 125,
            forall|i: int| 0 <= i < 125 ==> (#[trigger] old(self).cells()[i]).direction_heuristic as int
                == count_some(old(self).cells()[i].available_directions@, 12),
            forall|i: int, j: int| 0 <= i < 125 && 0 <= j < 12 ==> #[trigger] slot_fits(
                old(self).slot_at(i, j),
                pos_of(i),
            ),
            forall|i: int| 0 <= i < 125 ==> (#[trigger] old(self).cells()[i]).position_heuristic as int
                == cover_count(old(self).cells(), pos_of(i), 125),
        ensures
            final(self).cells().len() == 125,
            final(self).current_letter == old(self).current_letter,
            forall|i: int, j: int| 0 <= i < 125 && 0 <= j < 12 ==> #[trigger] final(self).slot_at(
                i,
                j,
            ) == retract_slot(old(self).slot_at(i, j), pos_of(i), piece.root(), piece.direction),
            forall|i: int| 0 <= i < 125 ==> (#[trigger] final(self).cells()[i]).position
                == old(self).cells()[i].position,
            forall|i: int| 0 <= i < 125 ==> (#[trigger] final(self).cells()[i]).is_occupied
                == old(self).cells()[i].is_occupied,
            forall|i: int| 0 <= i < 125 ==> (#[trigger] final(self).cells()[i]).occupied_letter
                == old(self).cells()[i].occupied_letter,
            forall|i: int| 0 <= i < 125 ==> (#[trigger] final(self).cells()[i]).direction_heuristic as int
                == count_some(final(self).cells()[i].available_directions@, 12),
            forall|i: int, j: int| 0 <= i < 125 && 0 <= j < 12 ==> #[trigger] slot_fits(
                final(self).slot_at(i, j),
                pos_of(i),
            ),
            forall|i: int| 0 <= i < 125 ==> (#[trigger] final(self).cells()[i]).position_heuristic as int
                == cover_count(final(self).cells(), pos_of(i), 125),
    {
        let ghost proot = piece.root();
        let ghost pd = piece.direction;
        let ghost pre = *self;
        let mut temp_piece = Piece::new();
        for i in 0..CELL_COUNT
            invariant
                self.cells().len() == 125,
                piece.wf(),
                temp_piece.wf(),
                proot == piece.root(),
                pd == piece.direction,
                self.current_letter == pre.current_letter,
                forall|i2: int, j: int|
                    #![trigger self.slot_at(i2, j)]
                    #![trigger self.cells()[i2].available_directions@[j]]
                    0 <= i2 < i && 0 <= j < 12 ==> self.slot_at(i2, j) == retract_slot(
                        pre.slot_at(i2, j),
                        pos_of(i2),
                        proot,
                        pd,
                    ),
                forall|i2: int, j: int|
                    #![trigger self.slot_at(i2, j)]
                    #![trigger self.cells()[i2].available_directions@[j]]
                    i <= i2 < 125 && 0 <= j < 12 ==> self.slot_at(i2, j) == pre.slot_at(i2, j),
                forall|i2: int| 0 <= i2 < 125 ==> (#[trigger] self.cells()[i2]).position
                    == pre.cells()[i2].position,
                forall|i2: int| 0 <= i2 < 125 ==> (#[trigger] self.cells()[i2]).is_occupied
                    == pre.cells()[i2].is_occupied,
                forall|i2: int| 0 <= i2 < 125 ==> (#[trigger] self.cells()[i2]).occupied_letter
                    == pre.cells()[i2].occupied_letter,
                forall|i2: int| 0 <= i2 < 125 ==> (#[trigger] self.cells()[i2]).direction_heuristic as int
                    == count_some(self.cells()[i2].available_directions@, 12),
                forall|i2: int, j: int|
                    #![trigger slot_fits(self.slot_at(i2, j), pos_of(i2))]
                    #![trigger self.cells()[i2].available_directions@[j]]
                    0 <= i2 < 125 && 0 <= j < 12 ==> slot_fits(self.slot_at(i2, j), pos_of(i2)),
                forall|i2: int| 0 <= i2 < 125 ==> (#[trigger] self.cells()[i2]).position_heuristic as int
                    == cover_count(self.cells(), pos_of(i2), 125),
        {
            proof {
                lemma_lattice_index(i as int);
            }
            let xi = (i / 25) as i8;
            let yi = ((i % 25) / 5) as i8;
            let zi = (i % 5) as i8;
            temp_piece.set_position(xi, yi, zi);
            assert(temp_piece.root() == pos_of(i as int));
            for j in 0..SLOT_COUNT
                invariant
                    self.cells().len() == 125,
                    0 <= i < 125,
                    piece.wf(),
                    temp_piece.wf(),
                    temp_piece.root() == pos_of(i as int),
                    proot == piece.root(),
                    pd == piece.direction,
                    self.current_letter == pre.current_letter,
                    forall|i2: int, j2: int|
                        #![trigger self.slot_at(i2, j2)]
                        #![trigger self.cells()[i2].available_directions@[j2]]
                        0 <= i2 < i && 0 <= j2 < 12 ==> self.slot_at(i2, j2) == retract_slot(
                            pre.slot_at(i2, j2),
                            pos_of(i2),
                            proot,
                            pd,
                        ),
                    forall|j2: int|
                        #![trigger self.slot_at(i as int, j2)]
                        #![trigger self.cells()[i as int].available_directions@[j2]]
                        0 <= j2 < j ==> self.slot_at(i as int, j2)
                            == retract_slot(pre.slot_at(i as int, j2), pos_of(i as int), proot, pd),
                    forall|j2: int|
                        #![trigger self.slot_at(i as int, j2)]
                        #![trigger self.cells()[i as int].available_directions@[j2]]
                        j <= j2 < 12 ==> self.slot_at(i as int, j2) == pre.slot_at(i as int, j2),
                    forall|i2: int, j2: int|
                        #![trigger self.slot_at(i2, j2)]
                        #![trigger self.cells()[i2].available_directions@[j2]]
                        i < i2 < 125 && 0 <= j2 < 12 ==> self.slot_at(i2, j2) == pre.slot_at(i2, j2),
                    forall|i2: int| 0 <= i2 < 125 ==> (#[trigger] self.cells()[i2]).position
                        == pre.cells()[i2].position,
                    forall|i2: int| 0 <= i2 < 125 ==> (#[trigger] self.cells()[i2]).is_occupied
                        == pre.cells()[i2].is_occupied,
                    forall|i2: int| 0 <= i2 < 125 ==> (#[trigger] self.cells()[i2]).occupied_letter
                        == pre.cells()[i2].occupied_letter,
                    forall|i2: int| 0 <= i2 < 125 ==> (#[trigger] self.cells()[i2]).direction_heuristic as int
                        == count_some(self.cells()[i2].available_directions@, 12),
                    forall|i2: int, j2: int|
                        #![trigger slot_fits(self.slot_at(i2, j2), pos_of(i2))]
                        #![trigger self.cells()[i2].available_directions@[j2]]
                        0 <= i2 < 125 && 0 <= j2 < 12 ==> slot_fits(self.slot_at(i2, j2), pos_of(i2)),
                    forall|i2: int| 0 <= i2 < 125 ==> (#[trigger] self.cells()[i2]).position_heuristic as int
                        == cover_count(self.cells(), pos_of(i2), 125),
            {
                let slot = self.cube_nodes[i].available_directions[j];
                match slot {
                    Some(dir) => {
                        proof {
                            assert(slot_fits(self.slot_at(i as int, j as int), pos_of(i as int)));
                        }
                        temp_piece.set_direction(dir);
                        if temp_piece.overlaps(piece) {
                            let ghost root = pos_of(i as int);
                            let ghost pre1 = *self;
                            let mut cell = self.cube_nodes[i];
                            proof {
                                lemma_count_some_pos(
                                    cell.available_directions@,
                                    12,
                                    j as int,
                                );
                            }
                            cell.direction_heuristic = cell.direction_heuristic - 1;
                            cell.available_directions[j] = None;
                            self.cube_nodes[i] = cell;
                            proof {
                                lemma_count_some_update(
                                    pre1.cells()[i as int].available_directions@,
                                    self.cells()[i as int].available_directions@,
                                    j as int,
                                    12,
                                );
                                assert forall|i2: int| 0 <= i2 < 125 implies
                                    (#[trigger] self.cells()[i2]).position_heuristic as int
                                    == cover_count(self.cells(), pos_of(i2), 125)
                                    + slot_cover_ind(root, dir, pos_of(i2)) by {
                                    lemma_cover_count_update(
                                        pre1.cells(),
                                        self.cells(),
                                        pos_of(i2),
                                        i as int,
                                        125,
                                    );
                                    lemma_cell_cover_update(
                                        pre1.cells()[i as int].available_directions@,
                                        self.cells()[i as int].available_directions@,
                                        root,
                                        pos_of(i2),
                                        j as int,
                                        12,
                                    );
                                }
                            }
                            for t in 0..5usize
                                invariant
                                    self.cells().len() == 125,
                                    0 <= i < 125,
                                    0 <= j < 12,
                                    temp_piece.wf(),
                                    temp_piece.root() == pos_of(i as int),
                                    temp_piece.direction == dir,
                                    piece_fits(pos_of(i as int), dir),
                                    pieces_overlap(pos_of(i as int), dir, proot, pd),
                                    pre.slot_at(i as int, j as int) == Some(dir),
                                    forall|i2: int| 0 <= i2 < 125 ==>
                                        (#[trigger] self.cells()[i2]).position_heuristic as int
                                        == cover_count(self.cells(), pos_of(i2), 125)
                                        + pending_cover(pos_of(i as int), dir, t as int, i2),
                                    forall|i2: int, j2: int|
                                        #![trigger self.slot_at(i2, j2)]
                                        #![trigger self.cells()[i2].available_directions@[j2]]
                                        0 <= i2 < i && 0 <= j2 < 12 ==> self.slot_at(i2, j2)
                                            == retract_slot(
                                            pre.slot_at(i2, j2),
                                            pos_of(i2),
                                            proot,
                                            pd,
                                        ),
                                    forall|j2: int|
                                        #![trigger self.slot_at(i as int, j2)]
                                        #![trigger self.cells()[i as int].available_directions@[j2]]
                                        0 <= j2 <= j ==> self.slot_at(i as int, j2) == retract_slot(
                                            pre.slot_at(i as int, j2),
                                            pos_of(i as int),
                                            proot,
                                            pd,
                                        ),
                                    forall|j2: int|
                                        #![trigger self.slot_at(i as int, j2)]
                                        #![trigger self.cells()[i as int].available_directions@[j2]]
                                        j < j2 < 12 ==> self.slot_at(i as int, j2)
                                            == pre.slot_at(i as int, j2),
                                    forall|i2: int, j2: int|
                                        #![trigger self.slot_at(i2, j2)]
                                        #![trigger self.cells()[i2].available_directions@[j2]]
                                        i < i2 < 125 && 0 <= j2 < 12 ==> self.slot_at(i2, j2)
                                            == pre.slot_at(i2, j2),
                                    forall|i2: int| 0 <= i2 < 125 ==> (#[trigger] self.cells()[i2]).direction_heuristic as int
                                        == count_some(self.cells()[i2].available_directions@, 12),
                                    forall|i2: int, j2: int|
                                        #![trigger slot_fits(self.slot_at(i2, j2), pos_of(i2))]
                                        #![trigger self.cells()[i2].available_directions@[j2]]
                                        0 <= i2 < 125 && 0 <= j2 < 12
                                            ==> slot_fits(self.slot_at(i2, j2), pos_of(i2)),
                                    forall|i2: int| 0 <= i2 < 125 ==> (#[trigger] self.cells()[i2]).position
                                        == pre.cells()[i2].position,
                                    forall|i2: int| 0 <= i2 < 125 ==> (#[trigger] self.cells()[i2]).is_occupied
                                        == pre.cells()[i2].is_occupied,
                                    forall|i2: int| 0 <= i2 < 125 ==> (#[trigger] self.cells()[i2]).occupied_letter
                                        == pre.cells()[i2].occupied_letter,
                                    self.current_letter == pre.current_letter,
                            {
                                let n = temp_piece.nodes[t];
                                proof {
                                    assert(in_lattice(node_at(pos_of(i as int), dir, t as int)));
                                    lemma_lattice_coord(node_at(pos_of(i as int), dir, t as int));
                                }
                                let ci = (n.0 as usize) * 25 + (n.1 as usize) * 5 + (n.2 as usize);
                                let ghost pre2 = *self;
                                let mut cn = self.cube_nodes[ci];
                                proof {
                                    lemma_piece_nodes_distinct(pos_of(i as int), dir);
                                    lemma_pending_step(
                                        pos_of(i as int),
                                        dir,
                                        t as int,
                                        ci as int,
                                        ci as int,
                                    );
                                    lemma_cover_count_bounds(self.cells(), pos_of(ci as int), 125);
                                }
                                cn.position_heuristic = cn.position_heuristic - 1;
                                self.cube_nodes[ci] = cn;
                                proof {
                                    assert forall|i2: int| 0 <= i2 < 125 implies
                                        (#[trigger] self.cells()[i2]).position_heuristic as int
                                        == cover_count(self.cells(), pos_of(i2), 125)
                                        + pending_cover(pos_of(i as int), dir, t as int + 1, i2) by {
                                        crate::heuristics::lemma_cover_count_congruence(
                                            pre2.cells(),
                                            self.cells(),
                                            pos_of(i2),
                                            125,
                                        );
                                        lemma_pending_step(
                                            pos_of(i as int),
                                            dir,
                                            t as int,
                                            i2,
                                            ci as int,
                                        );
                                    }
                                }
                            }
                            proof {
                                assert forall|i2: int| 0 <= i2 < 125 implies
                                    (#[trigger] self.cells()[i2]).position_heuristic as int
                                    == cover_count(self.cells(), pos_of(i2), 125) by {
                                    lemma_pending_done(pos_of(i as int), dir, i2);
                                }
                            }
                        }
                    },
                    None => {},
                }
            }
        }
    }
}

/// State of the node scan within one candidate: the running minimum
/// positive position heuristic and the orientation that achieved it.
pub open spec fn scan_nodes(
    cells: Seq<CubeNode>,
    root: (int, int, int),
    d: Direction,
    k: int,
    min_pos: int,
    opt: Direction,
) -> (int, Direction)
    decreases k,
{
    if k <= 0 {
        (min_pos, opt)
    } else {
        let prev = scan_nodes(cells, root, d, k - 1, min_pos, opt);
        let ph = cells[idx_of(node_at(root, d, k - 1))].position_heuristic as int;
        if ph > 0 && ph < prev.0 {
            (ph, d)
        } else {
            prev
        }
    }
}

/// State of the slot scan over one root cell's recorded orientations.
pub open spec fn scan_slots(
    cells: Seq<CubeNode>,
    i: int,
    j: int,
    min_pos: int,
    opt: Direction,
) -> (int, Direction)
    decreases j,
{
    if j <= 0 {
        (min_pos, opt)
    } else {
        let prev = scan_slots(cells, i, j - 1, min_pos, opt);
        match cells[i].available_directions@[j - 1] {
            Some(d) => scan_nodes(cells, pos_of(i), d, 5, prev.0, prev.1),
            None => prev,
        }
    }
}

/// State of the greedy scan over the first `n` cells: the minimum positive
/// direction heuristic seen (256 while none), the cell achieving it, and
/// the orientation selected within that cell.
pub open spec fn scan_cells(cells: Seq<CubeNode>, n: int) -> (int, int, Direction)
    decreases n,
{
    if n <= 0 {
        (256int, 0int, Direction::ForwardUp)
    } else {
        let prev = scan_cells(cells, n - 1);
        let dh = cells[n - 1].direction_heuristic as int;
        if dh > 0 && dh < prev.0 {
            let inner = scan_slots(cells, n - 1, 12, 65536int, prev.2);
            (dh, n - 1, inner.1)
        } else {
            prev
        }
    }
}

/// The piece the greedy scan selects on this lattice state, if any root
/// still has a usable orientation: the root cell's index and the chosen
/// orientation.
pub open spec fn optimal_piece_of(cells: Seq<CubeNode>) -> Option<(int, Direction)> {
    let st = scan_cells(cells, 125);
    if st.0 == 256 {
        None
    } else {
        Some((st.1, st.2))
    }
}

/// The node scan never raises the minimum, and any change picks the
/// scanned orientation with a positive minimum.
proof fn lemma_scan_nodes_props(
    cells: Seq<CubeNode>,
    root: (int, int, int),
    d: Direction,
    k: int,
    min_pos: int,
    opt: Direction,
)
    ensures
        scan_nodes(cells, root, d, k, min_pos, opt).0 <= min_pos,
        scan_nodes(cells, root, d, k, min_pos, opt) == (min_pos, opt) || (0 < scan_nodes(
            cells,
            root,
            d,
            k,
            min_pos,
            opt,
        ).0 < min_pos && scan_nodes(cells, root, d, k, min_pos, opt).1 == d),
    decreases k,
{
    if k > 0 {
        lemma_scan_nodes_props(cells, root, d, k - 1, min_pos, opt);
    }
}

/// The node scan ends at or below any positive heuristic it visits.
proof fn lemma_scan_nodes_le(
    cells: Seq<CubeNode>,
    root: (int, int, int),
    d: Direction,
    k: int,
    min_pos: int,
    opt: Direction,
    k0: int,
)
    requires
        0 <= k0 < k,
        cells[idx_of(node_at(root, d, k0))].position_heuristic > 0,
    ensures
        scan_nodes(cells, root, d, k, min_pos, opt).0
            <= cells[idx_of(node_at(root, d, k0))].position_heuristic as int,
    decreases k,
{
    lemma_scan_nodes_props(cells, root, d, k - 1, min_pos, opt);
    if k0 < k - 1 {
        lemma_scan_nodes_le(cells, root, d, k - 1, min_pos, opt, k0);
    }
}

/// The slot scan never raises the minimum, and any change picks one of
/// the cell's recorded orientations with a positive minimum.
proof fn lemma_scan_slots_props(
    cells: Seq<CubeNode>,
    i: int,
    j: int,
    min_pos: int,
    opt: Direction,
)
    ensures
        scan_slots(cells, i, j, min_pos, opt).0 <= min_pos,
        scan_slots(cells, i, j, min_pos, opt) == (min_pos, opt) || (0 < scan_slots(
            cells,
            i,
            j,
            min_pos,
            opt,
        ).0 < min_pos && exists|j0: int| 0 <= j0 < j && cells[i].available_directions@[j0]
            == Some(scan_slots(cells, i, j, min_pos, opt).1)),
    decreases j,
{
    if j > 0 {
        lemma_scan_slots_props(cells, i, j - 1, min_pos, opt);
        let prev = scan_slots(cells, i, j - 1, min_pos, opt);
        match cells[i].available_directions@[j - 1] {
            Some(d) => {
                lemma_scan_nodes_props(cells, pos_of(i), d, 5, prev.0, prev.1);
            },
            None => {},
        }
    }
}

/// A recorded candidate whose root cell still has a positive position
/// heuristic drags the slot scan's minimum down to at most that value.
proof fn lemma_scan_slots_progress(
    cells: Seq<CubeNode>,
    i: int,
    j: int,
    min_pos: int,
    opt: Direction,
    j0: int,
    d0: Direction,
)
    requires
        0 <= j0 < j,
        cells[i].available_directions@[j0] == Some(d0),
        cells[idx_of(node_at(pos_of(i), d0, 0))].position_heuristic > 0,
    ensures
        scan_slots(cells, i, j, min_pos, opt).0
            <= cells[idx_of(node_at(pos_of(i), d0, 0))].position_heuristic as int,
    decreases j,
{
    let prev = scan_slots(cells, i, j - 1, min_pos, opt);
    if j0 < j - 1 {
        lemma_scan_slots_progress(cells, i, j - 1, min_pos, opt, j0, d0);
        match cells[i].available_directions@[j - 1] {
            Some(d) => {
                lemma_scan_nodes_props(cells, pos_of(i), d, 5, prev.0, prev.1);
            },
            None => {},
        }
    } else {
        lemma_scan_nodes_le(cells, pos_of(i), d0, 5, prev.0, prev.1, 0);
    }
}

/// What the greedy scan guarantees on a consistent lattice: the sentinel
/// survives exactly when no root has a usable orientation left, and
/// otherwise the selected cell is in range, achieves the minimum, and the
/// selected orientation is one of its recorded candidates.
proof fn lemma_scan_cells_props(cells: Seq<CubeNode>, n: int)
    requires
        n <= 125,
        cells.len() == 125,
        forall|i: int| 0 <= i < 125 ==> (#[trigger] cells[i]).direction_heuristic as int
            == count_some(cells[i].available_directions@, 12),
        forall|i: int| 0 <= i < 125 ==> (#[trigger] cells[i]).position_heuristic as int
            == cover_count(cells, pos_of(i), 125),
    ensures
        scan_cells(cells, n).0 <= 256,
        scan_cells(cells, n).0 == 256 <==> (forall|i: int| 0 <= i < n
            ==> (#[trigger] cells[i]).direction_heuristic == 0),
        scan_cells(cells, n).0 < 256 ==> {
            let st = scan_cells(cells, n);
            &&& 0 <= st.1 < n
            &&& 0 < st.0
            &&& cells[st.1].direction_heuristic as int == st.0
            &&& exists|j0: int| 0 <= j0 < 12 && cells[st.1].available_directions@[j0]
                == Some(st.2)
        },
    decreases n,
{
    if n > 0 {
        lemma_scan_cells_props(cells, n - 1);
        let prev = scan_cells(cells, n - 1);
        let dh = cells[n - 1].direction_heuristic as int;
        if dh > 0 && dh < prev.0 {
            crate::heuristics::lemma_count_some_nonzero(cells[n - 1].available_directions@, 12);
            let j0 = choose|j0: int| 0 <= j0 < 12 && (#[trigger] cells[n
                - 1].available_directions@[j0]) is Some;
            let d0 = cells[n - 1].available_directions@[j0]->0;
            let root = pos_of(n - 1);
            lemma_lattice_index(n - 1);
            crate::direction::lemma_offset_root(d0);
            assert(node_at(root, d0, 0) == root);
            assert(covers(root, d0, root)) by {
                assert(0 <= 0 < 5 && node_at(root, d0, 0) == root);
            }
            lemma_cover_count_pos(cells, root, 125, n - 1, j0, d0);
            assert(cells[idx_of(node_at(root, d0, 0))].position_heuristic > 0);
            lemma_scan_slots_progress(cells, n - 1, 12, 65536int, prev.2, j0, d0);
            lemma_scan_slots_props(cells, n - 1, 12, 65536int, prev.2);
            let inner = scan_slots(cells, n - 1, 12, 65536int, prev.2);
            assert(inner.0 <= cells[idx_of(node_at(root, d0, 0))].position_heuristic as int);
            assert(inner.0 < 65536);
            assert(0 < inner.0 < 65536 && exists|j1: int| 0 <= j1 < 12
                && #[trigger] cells[n - 1].available_directions@[j1] == Some(inner.1));
            assert(scan_cells(cells, n) == (dh, n - 1, inner.1));
            let st = scan_cells(cells, n);
            assert(st.1 == n - 1 && st.2 == inner.1);
            assert(exists|j1: int| 0 <= j1 < 12 && #[trigger] cells[st.1].available_directions@[j1]
                == Some(st.2));
        }
    }
}

impl Cube {
    /// Greedy selection: scans the cells in the fixed order, tracks the
    /// first cell whose positive direction heuristic is a new minimum,
    /// and within each such cell the recorded orientation touching the
    /// cell with the smallest positive position heuristic.  Returns
    /// `None` exactly when no cell has a usable orientation left.
    pub fn find_optimal_piece(&self) -> (r: Option<Piece>)
        requires
            self.wf(),
        ensures
            match r {
                Some(p) => {
                    &&& p.wf()
                    &&& in_lattice(p.root())
                    &&& optimal_piece_of(self.cells()) == Some((idx_of(p.root()), p.direction))
                    &&& exists|j: int| 0 <= j < 12 && self.slot_at(idx_of(p.root()), j)
                        == Some(p.direction)
                    &&& piece_fits(p.root(), p.direction)
                    &&& forall|k: int| 0 <= k < 5 ==> !self.cells()[idx_of(
                        #[trigger] node_at(p.root(), p.direction, k),
                    )].is_occupied
                },
                None => {
                    &&& optimal_piece_of(self.cells()) is None
                    &&& forall|i: int| 0 <= i < 125
                        ==> (#[trigger] self.cells()[i]).direction_heuristic == 0
                },
            },
    {
        let mut min_direction: u16 = 256;
        let mut opt_idx: usize = 0;
        let mut opt_dir = Direction::ForwardUp;
        let mut temp_piece = Piece::new();
        for i in 0..CELL_COUNT
            invariant
                self.wf(),
                temp_piece.wf(),
                opt_idx < 125,
                scan_cells(self.cells(), i as int) == (min_direction as int, opt_idx as int, opt_dir),
        {
            let dh = self.cube_nodes[i].direction_heuristic;
            if dh > 0 && (dh as u16) < min_direction {
                min_direction = dh as u16;
                opt_idx = i;
                proof {
                    lemma_lattice_index(i as int);
                }
                let xi = (i / 25) as i8;
                let yi = ((i % 25) / 5) as i8;
                let zi = (i % 5) as i8;
                temp_piece.set_position(xi, yi, zi);
                assert(temp_piece.root() == pos_of(i as int));
                let mut min_position: u32 = 65536;
                let ghost entry_dir = opt_dir;
                for j in 0..SLOT_COUNT
                    invariant
                        self.wf(),
                        temp_piece.wf(),
                        0 <= i < 125,
                        temp_piece.root() == pos_of(i as int),
                        scan_slots(self.cells(), i as int, j as int, 65536int, entry_dir)
                            == (min_position as int, opt_dir),
                {
                    match self.cube_nodes[i].available_directions[j] {
                        Some(dir) => {
                            proof {
                                assert(self.slot_ok(i as int, j as int));
                            }
                            temp_piece.set_direction(dir);
                            let ghost entry_pos = min_position as int;
                            let ghost entry_dir2 = opt_dir;
                            for t in 0..5usize
                                invariant
                                    self.wf(),
                                    temp_piece.wf(),
                                    0 <= i < 125,
                                    temp_piece.root() == pos_of(i as int),
                                    temp_piece.direction == dir,
                                    piece_fits(pos_of(i as int), dir),
                                    scan_nodes(
                                        self.cells(),
                                        pos_of(i as int),
                                        dir,
                                        t as int,
                                        entry_pos,
                                        entry_dir2,
                                    ) == (min_position as int, opt_dir),
                            {
                                let n = temp_piece.nodes[t];
                                proof {
                                    assert(in_lattice(node_at(pos_of(i as int), dir, t as int)));
                                    lemma_lattice_coord(node_at(pos_of(i as int), dir, t as int));
                                }
                                let ci = (n.0 as usize) * 25 + (n.1 as usize) * 5 + (n.2 as usize);
                                let ph = self.cube_nodes[ci].position_heuristic;
                                if ph > 0 && (ph as u32) < min_position {
                                    opt_dir = dir;
                                    min_position = ph as u32;
                                }
                            }
                        },
                        None => {},
                    }
                }
            }
        }
        if min_direction == 256 {
            proof {
                lemma_scan_cells_props(self.cells(), 125);
            }
            None
        } else {
            proof {
                lemma_scan_cells_props(self.cells(), 125);
                lemma_lattice_index(opt_idx as int);
            }
            let xi = (opt_idx / 25) as i8;
            let yi = ((opt_idx % 25) / 5) as i8;
            let zi = (opt_idx % 5) as i8;
            let mut p = Piece::new();
            p.set_position(xi, yi, zi);
            p.set_direction(opt_dir);
            proof {
                assert(p.root() == pos_of(opt_idx as int));
                let j0 = choose|j0: int| 0 <= j0 < 12 && self.cells()[opt_idx as int].available_directions@[j0]
                    == Some(opt_dir);
                assert(self.slot_at(idx_of(p.root()), j0) == Some(p.direction));
                assert(self.slot_ok(opt_idx as int, j0));
            }
            Some(p)
        }
    }
}

impl Cube {
    /// The cell at `(x, y, z)`.
    pub fn cell(&self, x: usize, y: usize, z: usize) -> (n: CubeNode)
        requires
            self.wf(),
            x < 5,
            y < 5,
            z < 5,
        ensures
            n == self.cell_at((x as int, y as int, z as int)),
    {
        proof {
            lemma_lattice_coord((x as int, y as int, z as int));
        }
        self.cube_nodes[x * 25 + y * 5 + z]
    }

    /// Renders the direction-heuristic grid.
    pub fn print_direction_heuristic(&self) -> (s: String)
        requires
            self.wf(),
        ensures
            s@ == crate::render::grid_seq(
                self.cells(),
                crate::render::GridKind::DirectionHeuristic,
                25,
            ),
    {
        let mut s = String::new();
        for r in 0..25usize
            invariant
                self.wf(),
                s@ == crate::render::grid_seq(
                    self.cells(),
                    crate::render::GridKind::DirectionHeuristic,
                    r as int,
                ),
        {
            let base = r * 5;
            crate::render::push_row(
                &mut s,
                self.cube_nodes[base].direction_heuristic as u16,
                self.cube_nodes[base + 1].direction_heuristic as u16,
                self.cube_nodes[base + 2].direction_heuristic as u16,
                self.cube_nodes[base + 3].direction_heuristic as u16,
                self.cube_nodes[base + 4].direction_heuristic as u16,
            );
            if r % 5 == 4 {
                proof {
                    reveal_strlit("\n");
                }
                s.append("\n");
                proof {
                    assert("\n"@ =~= seq!['\n']);
                }
            }
            proof {
                assert(s@ =~= crate::render::grid_seq(
                    self.cells(),
                    crate::render::GridKind::DirectionHeuristic,
                    r as int + 1,
                ));
            }
        }
        s
    }

    /// Renders the position-heuristic grid.
    pub fn print_position_heuristic(&self) -> (s: String)
        requires
            self.wf(),
        ensures
            s@ == crate::render::grid_seq(
                self.cells(),
                crate::render::GridKind::PositionHeuristic,
                25,
            ),
    {
        let mut s = String::new();
        for r in 0..25usize
            invariant
                self.wf(),
                s@ == crate::render::grid_seq(
                    self.cells(),
                    crate::render::GridKind::PositionHeuristic,
                    r as int,
                ),
        {
            let base = r * 5;
            crate::render::push_row(
                &mut s,
                self.cube_nodes[base].position_heuristic,
                self.cube_nodes[base + 1].position_heuristic,
                self.cube_nodes[base + 2].position_heuristic,
                self.cube_nodes[base + 3].position_heuristic,
                self.cube_nodes[base + 4].position_heuristic,
            );
            if r % 5 == 4 {
                proof {
                    reveal_strlit("\n");
                }
                s.append("\n");
                proof {
                    assert("\n"@ =~= seq!['\n']);
                }
            }
            proof {
                assert(s@ =~= crate::render::grid_seq(
                    self.cells(),
                    crate::render::GridKind::PositionHeuristic,
                    r as int + 1,
                ));
            }
        }
        s
    }

    /// Renders the occupancy-label grid.
    pub fn print_puzzle_occupied(&self) -> (s: String)
        requires
            self.wf(),
        ensures
            s@ == crate::render::grid_seq(self.cells(), crate::render::GridKind::Occupancy, 25),
    {
        let mut s = String::new();
        for r in 0..25usize
            invariant
                self.wf(),
                s@ == crate::render::grid_seq(
                    self.cells(),
                    crate::render::GridKind::Occupancy,
                    r as int,
                ),
        {
            let base = r * 5;
            crate::render::push_letter_row(
                &mut s,
                self.cube_nodes[base].occupied_letter,
                self.cube_nodes[base + 1].occupied_letter,
                self.cube_nodes[base + 2].occupied_letter,
                self.cube_nodes[base + 3].occupied_letter,
                self.cube_nodes[base + 4].occupied_letter,
            );
            if r % 5 == 4 {
                proof {
                    reveal_strlit("\n");
                }
                s.append("\n");
                proof {
                    assert("\n"@ =~= seq!['\n']);
                }
            }
            proof {
                assert(s@ =~= crate::render::grid_seq(
                    self.cells(),
                    crate::render::GridKind::Occupancy,
                    r as int + 1,
                ));
            }
        }
        s
    }
}

/// LAW (selection determinism): the selected piece is a function of the
/// lattice state alone — two lattices with equal cells select equally.
pub proof fn lemma_selection_deterministic(c1: Cube, c2: Cube)
    requires
        c1.cells() == c2.cells(),
    ensures
        optimal_piece_of(c1.cells()) == optimal_piece_of(c2.cells()),
{
}

/// LAW (feasibility of recorded candidates): in a well-formed lattice,
/// every candidate still recorded in some cell's available-direction list
/// fits the lattice and overlaps no occupied cell.
pub proof fn lemma_available_candidate_feasible(c: Cube, i: int, j: int, d: Direction)
    requires
        c.wf(),
        0 <= i < 125,
        0 <= j < 12,
        c.slot_at(i, j) == Some(d),
    ensures
        piece_fits(pos_of(i), d),
        forall|k: int| 0 <= k < 5
            ==> !c.cells()[idx_of(#[trigger] node_at(pos_of(i), d, k))].is_occupied,
{
    assert(c.slot_ok(i, j));
}

/// LAW (idempotence of retraction): once no recorded candidate overlaps
/// the placed piece — which placement ensures — a further retraction pass
/// for the same piece leaves every slot, and with it both heuristics,
/// unchanged; in particular no counter is ever decremented twice.
pub proof fn lemma_retraction_idempotent(c: Cube, proot: (int, int, int), pd: Direction)
    requires
        forall|i: int, j: int| 0 <= i < 125 && 0 <= j < 12 ==> match #[trigger] c.slot_at(i, j) {
            Some(d) => !pieces_overlap(pos_of(i), d, proot, pd),
            None => true,
        },
    ensures
        forall|i: int, j: int| 0 <= i < 125 && 0 <= j < 12 ==> retract_slot(
            #[trigger] c.slot_at(i, j),
            pos_of(i),
            proot,
            pd,
        ) == c.slot_at(i, j),
{
}

/// LAW (idempotence of retraction, whole state): let `post` stand to
/// `pre` as [`Cube::retract_overlapping`] ensures for the piece `p`.  If
/// `pre` already records no candidate overlapping `p` — the state any
/// successful placement of `p` leaves behind — then `post` agrees with
/// `pre` on every field of every cell and on the label counter: the
/// repeated pass is a no-op.
pub proof fn lemma_retraction_noop(pre: Cube, post: Cube, p: Piece)
    requires
        pre.cells().len() == 125,
        post.cells().len() == 125,
        // pre is consistent
        forall|i: int| 0 <= i < 125 ==> (#[trigger] pre.cells()[i]).direction_heuristic as int
            == count_some(pre.cells()[i].available_directions@, 12),
        forall|i: int| 0 <= i < 125 ==> (#[trigger] pre.cells()[i]).position_heuristic as int
            == cover_count(pre.cells(), pos_of(i), 125),
        // post is the retraction outcome of pre for p
        forall|i: int, j: int| 0 <= i < 125 && 0 <= j < 12 ==> #[trigger] post.slot_at(i, j)
            == retract_slot(pre.slot_at(i, j), pos_of(i), p.root(), p.direction),
        forall|i: int| 0 <= i < 125 ==> (#[trigger] post.cells()[i]).position
            == pre.cells()[i].position,
        forall|i: int| 0 <= i < 125 ==> (#[trigger] post.cells()[i]).is_occupied
            == pre.cells()[i].is_occupied,
        forall|i: int| 0 <= i < 125 ==> (#[trigger] post.cells()[i]).occupied_letter
            == pre.cells()[i].occupied_letter,
        forall|i: int| 0 <= i < 125 ==> (#[trigger] post.cells()[i]).direction_heuristic as int
            == count_some(post.cells()[i].available_directions@, 12),
        forall|i: int| 0 <= i < 125 ==> (#[trigger] post.cells()[i]).position_heuristic as int
            == cover_count(post.cells(), pos_of(i), 125),
        post.current_letter == pre.current_letter,
        // pre holds no candidate overlapping p
        forall|i: int, j: int| 0 <= i < 125 && 0 <= j < 12 ==> match #[trigger] pre.slot_at(i, j) {
            Some(d) => !pieces_overlap(pos_of(i), d, p.root(), p.direction),
            None => true,
        },
    ensures
        forall|i: int| 0 <= i < 125 ==> (#[trigger] post.cells()[i]).available_directions@
            == pre.cells()[i].available_directions@,
        forall|i: int| 0 <= i < 125 ==> (#[trigger] post.cells()[i]).direction_heuristic
            == pre.cells()[i].direction_heuristic,
        forall|i: int| 0 <= i < 125 ==> (#[trigger] post.cells()[i]).position_heuristic
            == pre.cells()[i].position_heuristic,
        forall|i: int| 0 <= i < 125 ==> (#[trigger] post.cells()[i]).position
            == pre.cells()[i].position,
        forall|i: int| 0 <= i < 125 ==> (#[trigger] post.cells()[i]).is_occupied
            == pre.cells()[i].is_occupied,
        forall|i: int| 0 <= i < 125 ==> (#[trigger] post.cells()[i]).occupied_letter
            == pre.cells()[i].occupied_letter,
        post.current_letter == pre.current_letter,
{
    lemma_retraction_idempotent(pre, p.root(), p.direction);
    assert forall|i: int| 0 <= i < 125 implies (#[trigger] post.cells()[i]).available_directions@
        == pre.cells()[i].available_directions@ by {
        assert forall|j: int| 0 <= j < 12 implies post.cells()[i].available_directions@[j]
            == pre.cells()[i].available_directions@[j] by {
            assert(post.slot_at(i, j) == retract_slot(pre.slot_at(i, j), pos_of(i), p.root(), p.direction));
            assert(retract_slot(pre.slot_at(i, j), pos_of(i), p.root(), p.direction)
                == pre.slot_at(i, j));
        }
        assert(post.cells()[i].available_directions@ =~= pre.cells()[i].available_directions@);
    }
    assert forall|i: int| 0 <= i < 125 implies (#[trigger] post.cells()[i]).position_heuristic
        == pre.cells()[i].position_heuristic by {
        crate::heuristics::lemma_cover_count_congruence(post.cells(), pre.cells(), pos_of(i), 125);
    }
}

/// A recorded slot, if filled, holds an orientation whose piece fits the
/// lattice from the given root.
pub open spec fn slot_fits(slot: Option<Direction>, root: (int, int, int)) -> bool {
    match slot {
        Some(d) => piece_fits(root, d),
        None => true,
    }
}

/// A cell exactly as `CubeNode::new` makes it.
pub open spec fn is_blank_cell(n: CubeNode) -> bool {
    &&& n.position@ == (0int, 0int, 0int)
    &&& n.position_heuristic == 0
    &&& n.direction_heuristic == 0
    &&& forall|j: int| 0 <= j < 12 ==> #[trigger] n.available_directions@[j] is None
    &&& !n.is_occupied
    &&& n.occupied_letter == ' '
}

/// A cell whose own root bookkeeping has not started, though its position
/// heuristic may already count candidates of earlier roots.
pub open spec fn untouched_root(n: CubeNode) -> bool {
    &&& n.position@ == (0int, 0int, 0int)
    &&& n.direction_heuristic == 0
    &&& forall|j: int| 0 <= j < 12 ==> #[trigger] n.available_directions@[j] is None
    &&& !n.is_occupied
    &&& n.occupied_letter == ' '
}

/// Cover indicator of candidate `(root, d)` at coordinate `c`.
pub open spec fn slot_cover_ind(root: (int, int, int), d: Direction, c: (int, int, int)) -> int {
    if covers(root, d, c) {
        1int
    } else {
        0
    }
}

/// Cover indicator of candidate `(root, d)` at cell `ci`, ignoring the
/// candidate nodes before `t` (their heuristic is already adjusted).
pub open spec fn pending_cover(root: (int, int, int), d: Direction, t: int, ci: int) -> int {
    if covers(root, d, pos_of(ci)) && (forall|t2: int| 0 <= t2 < t
        ==> idx_of(#[trigger] node_at(root, d, t2)) != ci) {
        1int
    } else {
        0
    }
}

/// Adjusting the heuristic of the cell under candidate node `t` moves the
/// pending indicator of exactly that cell from one to zero.
proof fn lemma_pending_step(root: (int, int, int), d: Direction, t: int, ci: int, ct: int)
    requires
        0 <= t < 5,
        piece_fits(root, d),
        0 <= ci < 125,
        ct == idx_of(node_at(root, d, t)),
        forall|a: int, b: int| 0 <= a < b < 5 ==> node_at(root, d, a) != node_at(root, d, b),
    ensures
        ci != ct ==> pending_cover(root, d, t + 1, ci) == pending_cover(root, d, t, ci),
        ci == ct ==> pending_cover(root, d, t, ci) == 1 && pending_cover(root, d, t + 1, ci) == 0,
{
    assert(in_lattice(node_at(root, d, t)));
    lemma_lattice_coord(node_at(root, d, t));
    if ci == ct {
        assert(pos_of(ci) == node_at(root, d, t));
        assert(covers(root, d, pos_of(ci)));
        assert forall|t2: int| 0 <= t2 < t implies idx_of(#[trigger] node_at(root, d, t2)) != ci by {
            assert(in_lattice(node_at(root, d, t2)));
            lemma_lattice_coord(node_at(root, d, t2));
        }
        assert(idx_of(node_at(root, d, t)) == ci);
    }
}

/// After all five candidate nodes are adjusted, nothing is pending.
proof fn lemma_pending_done(root: (int, int, int), d: Direction, ci: int)
    requires
        piece_fits(root, d),
        0 <= ci < 125,
    ensures
        pending_cover(root, d, 5, ci) == 0,
{
    if covers(root, d, pos_of(ci)) {
        let k = choose|k: int| 0 <= k < 5 && #[trigger] node_at(root, d, k) == pos_of(ci);
        lemma_lattice_index(ci);
        assert(idx_of(node_at(root, d, k)) == ci);
    }
}

} // verus!
