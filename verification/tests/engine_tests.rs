use game_of_life::InvalidDimension;
use game_of_life::Universe;

#[test]
fn new_rejects_zero_width() {
    assert!(matches!(Universe::new(0, 5), Err(InvalidDimension)));
}

#[test]
fn new_rejects_zero_height() {
    assert!(matches!(Universe::new(5, 0), Err(InvalidDimension)));
}

#[test]
fn new_fading_rejects_zero_dimensions() {
    assert!(matches!(Universe::new_fading(0, 0), Err(InvalidDimension)));
    assert!(matches!(Universe::new_fading(0, 3), Err(InvalidDimension)));
    assert!(matches!(Universe::new_fading(3, 0), Err(InvalidDimension)));
}

#[test]
fn snapshot_length_is_width_times_height() {
    for (w, h) in [(1u32, 1u32), (4, 4), (5, 6), (9, 2), (1, 8)] {
        let u = Universe::new(w, h).unwrap();
        assert_eq!(u.width(), w);
        assert_eq!(u.height(), h);
        assert_eq!(u.cells().len(), (w * h) as usize);
        let f = Universe::new_fading(w, h).unwrap();
        assert_eq!(f.cells().len(), (w * h) as usize);
    }
}

#[test]
fn seed_pattern_instant() {
    // A cell at linear index i starts alive (7) when i % 2 == 0 or i % 7 == 0.
    let u = Universe::new(4, 4).unwrap();
    assert_eq!(
        u.cells().as_slice(),
        &[7, 0, 7, 0, 7, 0, 7, 7, 7, 0, 7, 0, 7, 0, 7, 0]
    );
}

#[test]
fn seed_pattern_fading() {
    // The fading variant uses the same selector with 1 (just born) and 6
    // (just dying).
    let u = Universe::new_fading(4, 4).unwrap();
    assert_eq!(
        u.cells().as_slice(),
        &[1, 6, 1, 6, 1, 6, 1, 1, 1, 6, 1, 6, 1, 6, 1, 6]
    );
}

#[test]
fn neighbor_counts_match_hand_counts_4x4() {
    let u = Universe::new(4, 4).unwrap();
    let expected: [u8; 16] = [3, 6, 3, 7, 3, 6, 3, 6, 3, 6, 3, 7, 2, 6, 2, 6];
    for row in 0..4u32 {
        for col in 0..4u32 {
            assert_eq!(
                u.live_neighbor_count(row, col),
                expected[(row * 4 + col) as usize]
            );
        }
    }
}

#[test]
fn neighbor_count_wraps_around_edges() {
    // On a 1x1 torus every offset wraps back to the only cell, which is
    // alive; the five non-skipped offsets each count it.
    let u = Universe::new(1, 1).unwrap();
    assert_eq!(u.live_neighbor_count(0, 0), 5);
    // On a 2x2 torus the alive column is seen twice by its horizontal
    // wraps.
    let v = Universe::new(2, 2).unwrap();
    assert_eq!(v.cells().as_slice(), &[7, 0, 7, 0]);
    let expected: [u8; 4] = [2, 6, 2, 6];
    for row in 0..2u32 {
        for col in 0..2u32 {
            assert_eq!(
                v.live_neighbor_count(row, col),
                expected[(row * 2 + col) as usize]
            );
        }
    }
}

#[test]
fn neighbor_count_never_exceeds_eight() {
    for (w, h) in [(1u32, 1u32), (2, 2), (3, 3), (4, 4), (5, 6), (8, 1)] {
        let u = Universe::new(w, h).unwrap();
        for row in 0..h {
            for col in 0..w {
                assert!(u.live_neighbor_count(row, col) <= 8);
            }
        }
    }
}

#[test]
fn render_marks_alive_cells() {
    let u = Universe::new(2, 2).unwrap();
    assert_eq!(u.render(), "#.\n#.\n");
    let v = Universe::new(4, 4).unwrap();
    assert_eq!(v.render(), "#.#.\n#.##\n#.#.\n#.#.\n");
    // No cell of the fading seed is fully alive, so none renders as #.
    let f = Universe::new_fading(4, 4).unwrap();
    assert_eq!(f.render(), "....\n....\n....\n....\n");
}
