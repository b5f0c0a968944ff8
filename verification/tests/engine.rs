use num_bigint::BigUint;
use rusty_conway::{Conway, ConwayError};

fn grid(rows: &[&str]) -> Vec<Vec<bool>> {
    rows.iter().map(|r| r.chars().map(|c| c == '#').collect()).collect()
}

fn engine(rows: &[&str]) -> Conway {
    let g = grid(rows);
    let w = g[0].len();
    let h = g.len();
    Conway::new(BigUint::from(0u32), g, (w, h)).unwrap()
}

#[test]
fn new_accepts_matching_dimensions() {
    let g = grid(&["#..", ".#."]);
    let e = Conway::new(BigUint::from(0u32), g.clone(), (3, 2)).unwrap();
    assert_eq!(e.dimensions(), (3, 2));
    assert_eq!(*e.current_grid(), g);
    assert_eq!(*e.current_generation(), BigUint::from(0u32));
}

#[test]
fn new_rejects_zero_width() {
    let r = Conway::new(BigUint::from(0u32), vec![], (0, 0));
    assert_eq!(r.unwrap_err(), ConwayError::EmptyGrid);
}

#[test]
fn new_rejects_zero_height() {
    let r = Conway::new(BigUint::from(0u32), vec![vec![true]], (1, 0));
    assert_eq!(r.unwrap_err(), ConwayError::EmptyGrid);
}

#[test]
fn new_rejects_short_row() {
    let g = vec![vec![true, false], vec![true]];
    let r = Conway::new(BigUint::from(0u32), g, (2, 2));
    assert_eq!(r.unwrap_err(), ConwayError::DimensionMismatch);
}

#[test]
fn new_rejects_wrong_row_count() {
    let g = vec![vec![true, false]];
    let r = Conway::new(BigUint::from(0u32), g, (2, 2));
    assert_eq!(r.unwrap_err(), ConwayError::DimensionMismatch);
}

#[test]
fn advance_is_deterministic() {
    let rows = ["#..#.", ".##..", "..#.#", "#...."];
    let mut a = engine(&rows);
    let mut b = engine(&rows);
    for _ in 0..4 {
        a.next_generation();
        b.next_generation();
        assert_eq!(*a.current_grid(), *b.current_grid());
    }
}

#[test]
fn generation_increments_by_one() {
    let g = grid(&["##", "##"]);
    let mut e = Conway::new(BigUint::from(5u32), g, (2, 2)).unwrap();
    let mut last = e.current_generation().clone();
    for _ in 0..3 {
        e.next_generation();
        let now = e.current_generation().clone();
        assert_eq!(now, &last + 1u32);
        last = now;
    }
    assert_eq!(*e.current_generation(), BigUint::from(8u32));
}

#[test]
fn generation_survives_thousands_of_steps() {
    let mut e = engine(&["#"]);
    e.run(2500);
    assert_eq!(*e.current_generation(), BigUint::from(2500u32));
}

#[test]
fn block_is_a_still_life() {
    let rows = ["....", ".##.", ".##.", "...."];
    let mut e = engine(&rows);
    let before = e.current_grid().clone();
    e.next_generation();
    assert_eq!(*e.current_grid(), before);
    e.run(3);
    assert_eq!(*e.current_grid(), before);
}

#[test]
fn blinker_oscillates_with_period_two() {
    let horizontal = [".....", ".....", ".###.", ".....", "....."];
    let vertical = [".....", "..#..", "..#..", "..#..", "....."];
    let mut e = engine(&horizontal);
    let start = e.current_grid().clone();
    e.next_generation();
    assert_eq!(*e.current_grid(), grid(&vertical));
    e.next_generation();
    assert_eq!(*e.current_grid(), start);
}

#[test]
fn single_cell_grid_advances_and_dies() {
    let mut e = engine(&["#"]);
    e.next_generation();
    assert_eq!(*e.current_grid(), vec![vec![false]]);
    assert_eq!(*e.current_generation(), BigUint::from(1u32));
}

#[test]
fn plus_shape_births_corners_and_kills_center() {
    let mut e = engine(&[".#.", "###", ".#."]);
    e.next_generation();
    assert_eq!(*e.current_grid(), grid(&["###", "#.#", "###"]));
}

#[test]
fn pair_dies_of_underpopulation() {
    let mut e = engine(&["##"]);
    e.next_generation();
    assert_eq!(*e.current_grid(), grid(&[".."]));
}

#[test]
fn run_zero_changes_nothing() {
    let mut e = engine(&["#..#", ".##."]);
    let before = e.current_grid().clone();
    e.run(0);
    assert_eq!(*e.current_grid(), before);
    assert_eq!(*e.current_generation(), BigUint::from(0u32));
}

#[test]
fn run_composes() {
    let rows = ["#..#.", ".##..", "..#.#", "#...."];
    let mut split = engine(&rows);
    let mut whole = engine(&rows);
    split.run(2);
    split.run(3);
    whole.run(5);
    assert_eq!(*split.current_grid(), *whole.current_grid());
    assert_eq!(*split.current_generation(), *whole.current_generation());
    assert_eq!(*whole.current_generation(), BigUint::from(5u32));
}

#[test]
fn run_matches_repeated_advance() {
    let rows = [".#.", "#.#", ".#."];
    let mut by_run = engine(&rows);
    let mut by_hand = engine(&rows);
    by_run.run(3);
    by_hand.next_generation();
    by_hand.next_generation();
    by_hand.next_generation();
    assert_eq!(*by_run.current_grid(), *by_hand.current_grid());
    assert_eq!(*by_run.current_generation(), *by_hand.current_generation());
}
