//! The 24 axis-aligned orientations a piece can take, and the relative
//! offsets of the five nodes of a piece in each orientation.

use vstd::prelude::*;

verus! {

/// One of the 24 orientations of a piece: a primary axis the piece walks
/// along (two unit steps), then one perpendicular step, then one more step
/// parallel to the primary axis.  Right-handed coordinates, y is up,
/// negative z is forward.
#[derive(Clone, Copy, Debug, PartialEq, Eq, Structural)]
pub enum Direction {
    ForwardUp,
    ForwardRight,
    ForwardDown,
    ForwardLeft,
    RightUp,
    RightBack,
    RightDown,
    RightForward,
    BackUp,
    BackLeft,
    BackDown,
    BackRight,
    LeftUp,
    LeftForward,
    LeftDown,
    LeftBack,
    UpBack,
    UpRight,
    UpForward,
    UpLeft,
    DownForward,
    DownRight,
    DownBack,
    DownLeft,
}

/// The direction at position `k` of the fixed global scan order
/// (declaration order).  Total: out-of-range indices fold onto the first
/// direction, and all users guard the index.
pub open spec fn dir_at(k: int) -> Direction {
    if k == 1 { Direction::ForwardRight }
    else if k == 2 { Direction::ForwardDown }
    else if k == 3 { Direction::ForwardLeft }
    else if k == 4 { Direction::RightUp }
    else if k == 5 { Direction::RightBack }
    else if k == 6 { Direction::RightDown }
    else if k == 7 { Direction::RightForward }
    else if k == 8 { Direction::BackUp }
    else if k == 9 { Direction::BackLeft }
    else if k == 10 { Direction::BackDown }
    else if k == 11 { Direction::BackRight }
    else if k == 12 { Direction::LeftUp }
    else if k == 13 { Direction::LeftForward }
    else if k == 14 { Direction::LeftDown }
    else if k == 15 { Direction::LeftBack }
    else if k == 16 { Direction::UpBack }
    else if k == 17 { Direction::UpRight }
    else if k == 18 { Direction::UpForward }
    else if k == 19 { Direction::UpLeft }
    else if k == 20 { Direction::DownForward }
    else if k == 21 { Direction::DownRight }
    else if k == 22 { Direction::DownBack }
    else if k == 23 { Direction::DownLeft }
    else { Direction::ForwardUp }
}

/// Relative offset of node `k` (0 is the root) of a piece oriented by `d`.
/// Out-of-range `k` folds onto the root offset.
pub open spec fn offset(d: Direction, k: int) -> (int, int, int) {
    match d {
        Direction::ForwardUp => {
            if k == 1 { (0, 0, -1) } else if k == 2 { (0, 0, -2) }
            else if k == 3 { (0, 1, -2) } else if k == 4 { (0, 1, -3) } else { (0, 0, 0) }
        },
        Direction::ForwardRight => {
            if k == 1 { (0, 0, -1) } else if k == 2 { (0, 0, -2) }
            else if k == 3 { (1, 0, -2) } else if k == 4 { (1, 0, -3) } else { (0, 0, 0) }
        },
        Direction::ForwardDown => {
            if k == 1 { (0, 0, -1) } else if k == 2 { (0, 0, -2) }
            else if k == 3 { (0, -1, -2) } else if k == 4 { (0, -1, -3) } else { (0, 0, 0) }
        },
        Direction::ForwardLeft => {
            if k == 1 { (0, 0, -1) } else if k == 2 { (0, 0, -2) }
            else if k == 3 { (-1, 0, -2) } else if k == 4 { (-1, 0, -3) } else { (0, 0, 0) }
        },
        Direction::RightUp => {
            if k == 1 { (1, 0, 0) } else if k == 2 { (2, 0, 0) }
            else if k == 3 { (2, 1, 0) } else if k == 4 { (3, 1, 0) } else { (0, 0, 0) }
        },
        Direction::RightBack => {
            if k == 1 { (1, 0, 0) } else if k == 2 { (2, 0, 0) }
            else if k == 3 { (2, 0, 1) } else if k == 4 { (3, 0, 1) } else { (0, 0, 0) }
        },
        Direction::RightDown => {
            if k == 1 { (1, 0, 0) } else if k == 2 { (2, 0, 0) }
            else if k == 3 { (2, -1, 0) } else if k == 4 { (3, -1, 0) } else { (0, 0, 0) }
        },
        Direction::RightForward => {
            if k == 1 { (1, 0, 0) } else if k == 2 { (2, 0, 0) }
            else if k == 3 { (2, 0, -1) } else if k == 4 { (3, 0, -1) } else { (0, 0, 0) }
        },
        Direction::BackUp => {
            if k == 1 { (0, 0, 1) } else if k == 2 { (0, 0, 2) }
            else if k == 3 { (0, 1, 2) } else if k == 4 { (0, 1, 3) } else { (0, 0, 0) }
        },
        Direction::BackLeft => {
            if k == 1 { (0, 0, 1) } else if k == 2 { (0, 0, 2) }
            else if k == 3 { (-1, 0, 2) } else if k == 4 { (-1, 0, 3) } else { (0, 0, 0) }
        },
        Direction::BackDown => {
            if k == 1 { (0, 0, 1) } else if k == 2 { (0, 0, 2) }
            else if k == 3 { (0, -1, 2) } else if k == 4 { (0, -1, 3) } else { (0, 0, 0) }
        },
        Direction::BackRight => {
            if k == 1 { (0, 0, 1) } else if k == 2 { (0, 0, 2) }
            else if k == 3 { (1, 0, 2) } else if k == 4 { (1, 0, 3) } else { (0, 0, 0) }
        },
        Direction::LeftUp => {
            if k == 1 { (-1, 0, 0) } else if k == 2 { (-2, 0, 0) }
            else if k == 3 { (-2, 1, 0) } else if k == 4 { (-3, 1, 0) } else { (0, 0, 0) }
        },
        Direction::LeftForward => {
            if k == 1 { (-1, 0, 0) } else if k == 2 { (-2, 0, 0) }
            else if k == 3 { (-2, 0, -1) } else if k == 4 { (-3, 0, -1) } else { (0, 0, 0) }
        },
        Direction::LeftDown => {
            if k == 1 { (-1, 0, 0) } else if k == 2 { (-2, 0, 0) }
            else if k == 3 { (-2, -1, 0) } else if k == 4 { (-3, -1, 0) } else { (0, 0, 0) }
        },
        Direction::LeftBack => {
            if k == 1 { (-1, 0, 0) } else if k == 2 { (-2, 0, 0) }
            else if k == 3 { (-2, 0, 1) } else if k == 4 { (-3, 0, 1) } else { (0, 0, 0) }
        },
        Direction::UpBack => {
            if k == 1 { (0, 1, 0) } else if k == 2 { (0, 2, 0) }
            else if k == 3 { (0, 2, 1) } else if k == 4 { (0, 3, 1) } else { (0, 0, 0) }
        },
        Direction::UpRight => {
            if k == 1 { (0, 1, 0) } else if k == 2 { (0, 2, 0) }
            else if k == 3 { (1, 2, 0) } else if k == 4 { (1, 3, 0) } else { (0, 0, 0) }
        },
        Direction::UpForward => {
            if k == 1 { (0, 1, 0) } else if k == 2 { (0, 2, 0) }
            else if k == 3 { (0, 2, -1) } else if k == 4 { (0, 3, -1) } else { (0, 0, 0) }
        },
        Direction::UpLeft => {
            if k == 1 { (0, 1, 0) } else if k == 2 { (0, 2, 0) }
            else if k == 3 { (-1, 2, 0) } else if k == 4 { (-1, 3, 0) } else { (0, 0, 0) }
        },
        Direction::DownForward => {
            if k == 1 { (0, -1, 0) } else if k == 2 { (0, -2, 0) }
            else if k == 3 { (0, -2, -1) } else if k == 4 { (0, -3, -1) } else { (0, 0, 0) }
        },
        Direction::DownRight => {
            if k == 1 { (0, -1, 0) } else if k == 2 { (0, -2, 0) }
            else if k == 3 { (1, -2, 0) } else if k == 4 { (1, -3, 0) } else { (0, 0, 0) }
        },
        Direction::DownBack => {
            if k == 1 { (0, -1, 0) } else if k == 2 { (0, -2, 0) }
            else if k == 3 { (0, -2, 1) } else if k == 4 { (0, -3, 1) } else { (0, 0, 0) }
        },
        Direction::DownLeft => {
            if k == 1 { (0, -1, 0) } else if k == 2 { (0, -2, 0) }
            else if k == 3 { (-1, -2, 0) } else if k == 4 { (-1, -3, 0) } else { (0, 0, 0) }
        },
    }
}

/// The root offset is always zero, in every orientation.
pub proof fn lemma_offset_root(d: Direction)
    ensures
        offset(d, 0) == (0int, 0int, 0int),
{
}

/// Offsets within one orientation are pairwise distinct, so the five nodes
/// of a piece never coincide.
pub proof fn lemma_offsets_distinct(d: Direction)
    ensures
        forall|a: int, b: int| 0 <= a < b < 5 ==> offset(d, a) != offset(d, b),
{
}

/// Every offset component lies in `[-3, 3]`.
pub proof fn lemma_offset_small(d: Direction, k: int)
    ensures
        -3 <= offset(d, k).0 <= 3,
        -3 <= offset(d, k).1 <= 3,
        -3 <= offset(d, k).2 <= 3,
{
}

impl Direction {
    /// The relative offsets of the five nodes of a piece oriented by
    /// `self`, the root first.
    pub fn get_node_offsets(&self) -> (r: [(i8, i8, i8); 5])
        ensures
            forall|k: int| 0 <= k < 5 ==> ((#[trigger] r@[k]).0 as int, r@[k].1 as int, r@[k].2 as int)
                == offset(*self, k),
    {
        let r = [
            offset_exec(*self, 0),
            offset_exec(*self, 1),
            offset_exec(*self, 2),
            offset_exec(*self, 3),
            offset_exec(*self, 4),
        ];
        proof {
            assert(forall|k: int| 0 <= k < 5 ==> ((#[trigger] r@[k]).0 as int, r@[k].1 as int, r@[k].2 as int)
                == offset(*self, k)) by {
                assert((r@[0].0 as int, r@[0].1 as int, r@[0].2 as int) == offset(*self, 0));
                assert((r@[1].0 as int, r@[1].1 as int, r@[1].2 as int) == offset(*self, 1));
                assert((r@[2].0 as int, r@[2].1 as int, r@[2].2 as int) == offset(*self, 2));
                assert((r@[3].0 as int, r@[3].1 as int, r@[3].2 as int) == offset(*self, 3));
                assert((r@[4].0 as int, r@[4].1 as int, r@[4].2 as int) == offset(*self, 4));
            }
        }
        r
    }

    /// All 24 directions, in the fixed global scan order.
    pub fn iterator() -> (r: [Direction; 24])
        ensures
            forall|k: int| 0 <= k < 24 ==> #[trigger] r@[k] == dir_at(k),
    {
        let r = [
            Direction::ForwardUp,
            Direction::ForwardRight,
            Direction::ForwardDown,
            Direction::ForwardLeft,
            Direction::RightUp,
            Direction::RightBack,
            Direction::RightDown,
            Direction::RightForward,
            Direction::BackUp,
            Direction::BackLeft,
            Direction::BackDown,
            Direction::BackRight,
            Direction::LeftUp,
            Direction::LeftForward,
            Direction::LeftDown,
            Direction::LeftBack,
            Direction::UpBack,
            Direction::UpRight,
            Direction::UpForward,
            Direction::UpLeft,
            Direction::DownForward,
            Direction::DownRight,
            Direction::DownBack,
            Direction::DownLeft,
        ];
        r
    }
}

/// Executable twin of [`offset`].
fn offset_exec(d: Direction, k: usize) -> (r: (i8, i8, i8))
    requires
        k < 5,
    ensures
        (r.0 as int, r.1 as int, r.2 as int) == offset(d, k as int),
{
    let table = d.offsets_table();
    table[k]
}

impl Direction {
    /// The raw offset table for `self`, used by [`offset_exec`].
    fn offsets_table(&self) -> (r: [(i8, i8, i8); 5])
        ensures
            forall|k: int| 0 <= k < 5 ==> ((#[trigger] r@[k]).0 as int, r@[k].1 as int, r@[k].2 as int)
                == offset(*self, k),
    {
        match self {
            Direction::ForwardUp => [(0, 0, 0), (0, 0, -1), (0, 0, -2), (0, 1, -2), (0, 1, -3)],
            Direction::ForwardRight => [(0, 0, 0), (0, 0, -1), (0, 0, -2), (1, 0, -2), (1, 0, -3)],
            Direction::ForwardDown => [(0, 0, 0), (0, 0, -1), (0, 0, -2), (0, -1, -2), (0, -1, -3)],
            Direction::ForwardLeft => [(0, 0, 0), (0, 0, -1), (0, 0, -2), (-1, 0, -2), (-1, 0, -3)],
            Direction::RightUp => [(0, 0, 0), (1, 0, 0), (2, 0, 0), (2, 1, 0), (3, 1, 0)],
            Direction::RightBack => [(0, 0, 0), (1, 0, 0), (2, 0, 0), (2, 0, 1), (3, 0, 1)],
            Direction::RightDown => [(0, 0, 0), (1, 0, 0), (2, 0, 0), (2, -1, 0), (3, -1, 0)],
            Direction::RightForward => [(0, 0, 0), (1, 0, 0), (2, 0, 0), (2, 0, -1), (3, 0, -1)],
            Direction::BackUp => [(0, 0, 0), (0, 0, 1), (0, 0, 2), (0, 1, 2), (0, 1, 3)],
            Direction::BackLeft => [(0, 0, 0), (0, 0, 1), (0, 0, 2), (-1, 0, 2), (-1, 0, 3)],
            Direction::BackDown => [(0, 0, 0), (0, 0, 1), (0, 0, 2), (0, -1, 2), (0, -1, 3)],
            Direction::BackRight => [(0, 0, 0), (0, 0, 1), (0, 0, 2), (1, 0, 2), (1, 0, 3)],
            Direction::LeftUp => [(0, 0, 0), (-1, 0, 0), (-2, 0, 0), (-2, 1, 0), (-3, 1, 0)],
            Direction::LeftForward => [(0, 0, 0), (-1, 0, 0), (-2, 0, 0), (-2, 0, -1), (-3, 0, -1)],
            Direction::LeftDown => [(0, 0, 0), (-1, 0, 0), (-2, 0, 0), (-2, -1, 0), (-3, -1, 0)],
            Direction::LeftBack => [(0, 0, 0), (-1, 0, 0), (-2, 0, 0), (-2, 0, 1), (-3, 0, 1)],
            Direction::UpBack => [(0, 0, 0), (0, 1, 0), (0, 2, 0), (0, 2, 1), (0, 3, 1)],
            Direction::UpRight => [(0, 0, 0), (0, 1, 0), (0, 2, 0), (1, 2, 0), (1, 3, 0)],
            Direction::UpForward => [(0, 0, 0), (0, 1, 0), (0, 2, 0), (0, 2, -1), (0, 3, -1)],
            Direction::UpLeft => [(0, 0, 0), (0, 1, 0), (0, 2, 0), (-1, 2, 0), (-1, 3, 0)],
            Direction::DownForward => [(0, 0, 0), (0, -1, 0), (0, -2, 0), (0, -2, -1), (0, -3, -1)],
            Direction::DownRight => [(0, 0, 0), (0, -1, 0), (0, -2, 0), (1, -2, 0), (1, -3, 0)],
            Direction::DownBack => [(0, 0, 0), (0, -1, 0), (0, -2, 0), (0, -2, 1), (0, -3, 1)],
            Direction::DownLeft => [(0, 0, 0), (0, -1, 0), (0, -2, 0), (-1, -2, 0), (-1, -3, 0)],
        }
    }
}

} // verus!
