//! Plain-text rendering of the per-cell grids.  The format is a reporting
//! concern only: each (x, y) line lists the five z values of a row, and a
//! blank line separates the x layers.

use vstd::prelude::*;
use vstd::string::StringExecFns;
use crate::heuristics::CubeNode;

verus! {

/// The decimal digit character for `n` in `[0, 9]`; other values fold
/// onto `'9'`.
pub open spec fn digit_char(n: int) -> char {
    if n == 0 { '0' }
    else if n == 1 { '1' }
    else if n == 2 { '2' }
    else if n == 3 { '3' }
    else if n == 4 { '4' }
    else if n == 5 { '5' }
    else if n == 6 { '6' }
    else if n == 7 { '7' }
    else if n == 8 { '8' }
    else { '9' }
}

/// The decimal rendering of a nonnegative number (most significant digit
/// first); negative values fold onto a single digit.
pub open spec fn dec_seq(n: int) -> Seq<char>
    decreases n,
{
    if n < 10 {
        seq![digit_char(n)]
    } else {
        dec_seq(n / 10) + seq![digit_char(n % 10)]
    }
}

/// The one-character rendering of an occupancy label: an upper-case
/// letter or the blank of an empty cell; anything else is masked.
pub open spec fn letter_seq(c: char) -> Seq<char> {
    if (65 <= c as int <= 90) || c as int == 32 {
        seq![c]
    } else {
        seq!['?']
    }
}

/// One rendered grid line of five numbers.
pub open spec fn row_seq(a: int, b: int, c: int, d: int, e: int) -> Seq<char> {
    seq!['['] + dec_seq(a) + seq![',', ' '] + dec_seq(b) + seq![',', ' '] + dec_seq(c)
        + seq![',', ' '] + dec_seq(d) + seq![',', ' '] + dec_seq(e) + seq![']', '\n']
}

/// One rendered grid line of five labels.
pub open spec fn letter_row_seq(a: char, b: char, c: char, d: char, e: char) -> Seq<char> {
    seq!['['] + letter_seq(a) + seq![',', ' '] + letter_seq(b) + seq![',', ' '] + letter_seq(c)
        + seq![',', ' '] + letter_seq(d) + seq![',', ' '] + letter_seq(e) + seq![']', '\n']
}

/// The value of one cell, as selected by each grid.
pub enum GridKind {
    DirectionHeuristic,
    PositionHeuristic,
    Occupancy,
}

/// The number rendered for cell `i` of a numeric grid.
pub open spec fn grid_value(cells: Seq<CubeNode>, kind: GridKind, i: int) -> int {
    match kind {
        GridKind::DirectionHeuristic => cells[i].direction_heuristic as int,
        GridKind::PositionHeuristic => cells[i].position_heuristic as int,
        GridKind::Occupancy => 0,
    }
}

/// The full rendering of the first `r` rows (a row is one (x, y) pair in
/// scan order; rows of one x layer are followed by a blank line).
pub open spec fn grid_seq(cells: Seq<CubeNode>, kind: GridKind, r: int) -> Seq<char>
    decreases r,
{
    if r <= 0 {
        Seq::empty()
    } else {
        let base = (r - 1) * 5;
        let row = match kind {
            GridKind::Occupancy => letter_row_seq(
                cells[base + 0].occupied_letter,
                cells[base + 1].occupied_letter,
                cells[base + 2].occupied_letter,
                cells[base + 3].occupied_letter,
                cells[base + 4].occupied_letter,
            ),
            _ => row_seq(
                grid_value(cells, kind, base + 0),
                grid_value(cells, kind, base + 1),
                grid_value(cells, kind, base + 2),
                grid_value(cells, kind, base + 3),
                grid_value(cells, kind, base + 4),
            ),
        };
        grid_seq(cells, kind, r - 1) + row + (if (r - 1) % 5 == 4 {
            seq!['\n']
        } else {
            Seq::empty()
        })
    }
}

/// The string slice holding one decimal digit.
fn digit_str(v: u16) -> (r: &'static str)
    requires
        v < 10,
    ensures
        r@ == seq![digit_char(v as int)],
{
    proof {
        reveal_strlit("0");
        reveal_strlit("1");
        reveal_strlit("2");
        reveal_strlit("3");
        reveal_strlit("4");
        reveal_strlit("5");
        reveal_strlit("6");
        reveal_strlit("7");
        reveal_strlit("8");
        reveal_strlit("9");
    }
    let r = if v == 0 { "0" }
    else if v == 1 { "1" }
    else if v == 2 { "2" }
    else if v == 3 { "3" }
    else if v == 4 { "4" }
    else if v == 5 { "5" }
    else if v == 6 { "6" }
    else if v == 7 { "7" }
    else if v == 8 { "8" }
    else { "9" };
    proof {
        assert(r@ =~= seq![digit_char(v as int)]);
    }
    r
}

/// Appends the decimal rendering of `v`.
fn push_u16(s: &mut String, v: u16)
    ensures
        final(s)@ == old(s)@ + dec_seq(v as int),
    decreases v,
{
    if v < 10 {
        s.append(digit_str(v));
    } else {
        push_u16(s, v / 10);
        s.append(digit_str(v % 10));
        proof {
            assert(s@ =~= old(s)@ + dec_seq(v as int));
        }
    }
}

/// The string slice holding one occupancy label.
fn letter_str(c: char) -> (r: &'static str)
    ensures
        r@ == letter_seq(c),
{
    proof {
        reveal_strlit(" ");
        reveal_strlit("?");
        reveal_strlit("A");
        reveal_strlit("B");
        reveal_strlit("C");
        reveal_strlit("D");
        reveal_strlit("E");
        reveal_strlit("F");
        reveal_strlit("G");
        reveal_strlit("H");
        reveal_strlit("I");
        reveal_strlit("J");
        reveal_strlit("K");
        reveal_strlit("L");
        reveal_strlit("M");
        reveal_strlit("N");
        reveal_strlit("O");
        reveal_strlit("P");
        reveal_strlit("Q");
        reveal_strlit("R");
        reveal_strlit("S");
        reveal_strlit("T");
        reveal_strlit("U");
        reveal_strlit("V");
        reveal_strlit("W");
        reveal_strlit("X");
        reveal_strlit("Y");
        reveal_strlit("Z");
    }
    let r = if c == ' ' { " " }
    else if c == 'A' { "A" }
    else if c == 'B' { "B" }
    else if c == 'C' { "C" }
    else if c == 'D' { "D" }
    else if c == 'E' { "E" }
    else if c == 'F' { "F" }
    else if c == 'G' { "G" }
    else if c == 'H' { "H" }
    else if c == 'I' { "I" }
    else if c == 'J' { "J" }
    else if c == 'K' { "K" }
    else if c == 'L' { "L" }
    else if c == 'M' { "M" }
    else if c == 'N' { "N" }
    else if c == 'O' { "O" }
    else if c == 'P' { "P" }
    else if c == 'Q' { "Q" }
    else if c == 'R' { "R" }
    else if c == 'S' { "S" }
    else if c == 'T' { "T" }
    else if c == 'U' { "U" }
    else if c == 'V' { "V" }
    else if c == 'W' { "W" }
    else if c == 'X' { "X" }
    else if c == 'Y' { "Y" }
    else if c == 'Z' { "Z" }
    else { "?" };
    proof {
        assert(r@ =~= letter_seq(c));
    }
    r
}

/// Appends one rendered line of five numbers.
pub fn push_row(s: &mut String, a: u16, b: u16, c: u16, d: u16, e: u16)
    ensures
        final(s)@ == old(s)@ + row_seq(a as int, b as int, c as int, d as int, e as int),
{
    proof {
        reveal_strlit("[");
        reveal_strlit(", ");
        reveal_strlit("]\n");
    }
    s.append("[");
    push_u16(s, a);
    s.append(", ");
    push_u16(s, b);
    s.append(", ");
    push_u16(s, c);
    s.append(", ");
    push_u16(s, d);
    s.append(", ");
    push_u16(s, e);
    s.append("]\n");
    proof {
        assert(s@ =~= old(s)@ + row_seq(a as int, b as int, c as int, d as int, e as int));
    }
}

/// Appends one rendered line of five labels.
pub fn push_letter_row(s: &mut String, a: char, b: char, c: char, d: char, e: char)
    ensures
        final(s)@ == old(s)@ + letter_row_seq(a, b, c, d, e),
{
    proof {
        reveal_strlit("[");
        reveal_strlit(", ");
        reveal_strlit("]\n");
    }
    s.append("[");
    s.append(letter_str(a));
    s.append(", ");
    s.append(letter_str(b));
    s.append(", ");
    s.append(letter_str(c));
    s.append(", ");
    s.append(letter_str(d));
    s.append(", ");
    s.append(letter_str(e));
    s.append("]\n");
    proof {
        assert(s@ =~= old(s)@ + letter_row_seq(a, b, c, d, e));
    }
}

} // verus!
