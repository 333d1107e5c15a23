use pentacube::cube::{Cube, CubeError};
use pentacube::direction::Direction;
use pentacube::piece::Piece;

fn occupied_count(c: &Cube) -> usize {
    let mut count = 0;
    for x in 0..5 {
        for y in 0..5 {
            for z in 0..5 {
                if c.cell(x, y, z).is_occupied {
                    count += 1;
                }
            }
        }
    }
    count
}

fn distinct_labels(c: &Cube) -> Vec<char> {
    let mut labels: Vec<char> = Vec::new();
    for x in 0..5 {
        for y in 0..5 {
            for z in 0..5 {
                let cell = c.cell(x, y, z);
                if cell.is_occupied && !labels.contains(&cell.occupied_letter) {
                    labels.push(cell.occupied_letter);
                }
            }
        }
    }
    labels.sort();
    labels
}

fn heuristic_grids(c: &Cube) -> (Vec<u8>, Vec<u16>) {
    let mut dh = Vec::new();
    let mut ph = Vec::new();
    for x in 0..5 {
        for y in 0..5 {
            for z in 0..5 {
                dh.push(c.cell(x, y, z).direction_heuristic);
                ph.push(c.cell(x, y, z).position_heuristic);
            }
        }
    }
    (dh, ph)
}

#[test]
fn corner_cell_count_matches_direct_enumeration() {
    // Derive the corner value by direct enumeration against the
    // 24-direction offset table, then assert the exact count.
    let mut piece = Piece::new();
    piece.set_position(0, 0, 0);
    let mut enumerated: u8 = 0;
    for d in Direction::iterator().iter() {
        piece.set_direction(*d);
        if piece.is_in_bounds() {
            enumerated += 1;
        }
    }
    // the six orientations that extend fully into the lattice from the
    // origin corner: Back/Right/Up primaries bent toward Back/Right/Up
    assert_eq!(enumerated, 6);
    let c = Cube::new();
    assert_eq!(c.cell(0, 0, 0).direction_heuristic, enumerated);
}

#[test]
fn direction_heuristic_matches_enumeration_at_init() {
    let c = Cube::new();
    let dirs = Direction::iterator();
    let mut piece = Piece::new();
    for x in 0..5i8 {
        for y in 0..5i8 {
            for z in 0..5i8 {
                piece.set_position(x, y, z);
                let mut count: u8 = 0;
                for d in dirs.iter() {
                    piece.set_direction(*d);
                    if piece.is_in_bounds() {
                        count += 1;
                    }
                }
                let cell = c.cell(x as usize, y as usize, z as usize);
                assert_eq!(cell.direction_heuristic, count);
                assert!(cell.direction_heuristic <= 12);
            }
        }
    }
}

#[test]
fn position_heuristic_matches_enumeration_at_init() {
    let c = Cube::new();
    let dirs = Direction::iterator();
    let mut expected = [[[0u16; 5]; 5]; 5];
    let mut piece = Piece::new();
    for x in 0..5i8 {
        for y in 0..5i8 {
            for z in 0..5i8 {
                piece.set_position(x, y, z);
                for d in dirs.iter() {
                    piece.set_direction(*d);
                    if piece.is_in_bounds() {
                        for n in piece.nodes.iter() {
                            expected[n.0 as usize][n.1 as usize][n.2 as usize] += 1;
                        }
                    }
                }
            }
        }
    }
    for x in 0..5 {
        for y in 0..5 {
            for z in 0..5 {
                assert_eq!(c.cell(x, y, z).position_heuristic, expected[x][y][z]);
            }
        }
    }
}

#[test]
fn first_placement_covers_five_cells_under_one_label() {
    let mut c = Cube::new();
    let piece = c.find_optimal_piece().expect("a fresh lattice has placements");
    assert_eq!(c.place_piece(piece), Ok(()));
    assert_eq!(occupied_count(&c), 5);
    assert_eq!(distinct_labels(&c), vec!['A']);
}

#[test]
fn four_greedy_placements_fill_twenty_cells() {
    let mut c = Cube::new();
    let mut placed: Vec<Piece> = Vec::new();
    for _ in 1..=4 {
        let piece = c.find_optimal_piece().expect("greedy run must find a piece");
        assert_eq!(c.place_piece(piece), Ok(()));
        placed.push(piece);
    }
    assert_eq!(occupied_count(&c), 20);
    assert_eq!(distinct_labels(&c), vec!['A', 'B', 'C', 'D']);
    for a in 0..placed.len() {
        for b in 0..placed.len() {
            if a != b {
                assert!(!placed[a].overlaps(placed[b]));
            }
        }
    }
}

#[test]
fn selection_is_deterministic() {
    let mut c = Cube::new();
    for _ in 0..2 {
        let p1 = c.find_optimal_piece().expect("placement available");
        let p2 = c.find_optimal_piece().expect("placement available");
        assert_eq!(p1.nodes, p2.nodes);
        assert_eq!(p1.direction, p2.direction);
        assert_eq!(c.place_piece(p1), Ok(()));
    }
}

#[test]
fn out_of_bounds_placement_is_rejected() {
    let mut c = Cube::new();
    let before = heuristic_grids(&c);
    let mut piece = Piece::new();
    piece.set_position(4, 4, 4);
    piece.set_direction(Direction::RightUp);
    assert!(!piece.is_in_bounds());
    assert_eq!(c.place_piece(piece), Err(CubeError::InvalidPlacement));
    assert_eq!(heuristic_grids(&c), before);
    assert_eq!(occupied_count(&c), 0);
}

#[test]
fn overlapping_placement_is_rejected() {
    let mut c = Cube::new();
    let piece = c.find_optimal_piece().expect("placement available");
    assert_eq!(c.place_piece(piece), Ok(()));
    let before = heuristic_grids(&c);
    assert_eq!(c.place_piece(piece), Err(CubeError::InvalidPlacement));
    assert_eq!(heuristic_grids(&c), before);
}

#[test]
fn exhausted_labels_are_rejected() {
    let mut c = Cube::new();
    c.current_letter = '[';
    let piece = c.find_optimal_piece().expect("placement available");
    assert_eq!(c.place_piece(piece), Err(CubeError::LabelsExhausted));
    assert_eq!(occupied_count(&c), 0);
}

#[test]
fn repeated_retraction_is_a_no_op() {
    let mut c = Cube::new();
    let piece = c.find_optimal_piece().expect("placement available");
    assert_eq!(c.place_piece(piece), Ok(()));
    let before = heuristic_grids(&c);
    c.retract_overlapping(piece);
    assert_eq!(heuristic_grids(&c), before);
    c.retract_overlapping(piece);
    assert_eq!(heuristic_grids(&c), before);
}

#[test]
fn recorded_candidates_stay_feasible_after_placements() {
    let mut c = Cube::new();
    for _ in 0..2 {
        let piece = c.find_optimal_piece().expect("placement available");
        assert_eq!(c.place_piece(piece), Ok(()));
    }
    let mut candidate = Piece::new();
    for x in 0..5 {
        for y in 0..5 {
            for z in 0..5 {
                let cell = c.cell(x, y, z);
                candidate.set_position(x as i8, y as i8, z as i8);
                for slot in cell.available_directions.iter() {
                    if let Some(d) = slot {
                        candidate.set_direction(*d);
                        assert!(candidate.is_in_bounds());
                        for n in candidate.nodes.iter() {
                            assert!(!c.cell(n.0 as usize, n.1 as usize, n.2 as usize).is_occupied);
                        }
                    }
                }
            }
        }
    }
}

#[test]
fn heuristics_never_underflow() {
    let mut c = Cube::new();
    for _ in 1..=4 {
        let piece = c.find_optimal_piece().expect("placement available");
        assert_eq!(c.place_piece(piece), Ok(()));
        for x in 0..5 {
            for y in 0..5 {
                for z in 0..5 {
                    // the counters are unsigned; a wrapped decrement would
                    // show up as an absurdly large value
                    assert!(c.cell(x, y, z).direction_heuristic <= 12);
                    assert!(c.cell(x, y, z).position_heuristic <= 1500);
                }
            }
        }
    }
}

#[test]
fn rendered_grids_reflect_state() {
    let mut c = Cube::new();
    let dh = c.print_direction_heuristic();
    assert!(dh.starts_with("[6, "));
    assert_eq!(dh.lines().filter(|l| !l.is_empty()).count(), 25);
    let occupied = c.print_puzzle_occupied();
    assert!(!occupied.contains('A'));
    for _ in 1..=4 {
        let piece = c.find_optimal_piece().expect("placement available");
        assert_eq!(c.place_piece(piece), Ok(()));
    }
    let occupied = c.print_puzzle_occupied();
    for l in ['A', 'B', 'C', 'D'] {
        assert!(occupied.contains(l));
    }
    let ph = c.print_position_heuristic();
    assert_eq!(ph.lines().filter(|l| !l.is_empty()).count(), 25);
}
