use num_bigint::BigUint;
use rusty_conway::{Conway, FrameFormat};

fn engine(rows: &[&str]) -> Conway {
    let g: Vec<Vec<bool>> = rows.iter().map(|r| r.chars().map(|c| c == '#').collect()).collect();
    let w = g[0].len();
    let h = g.len();
    Conway::new(BigUint::from(0u32), g, (w, h)).unwrap()
}

#[test]
fn stringify_draws_squares_without_header() {
    let mut e = engine(&["#.", ".#"]);
    assert_eq!(e.stringify(), "\u{25fc}\u{25fb}\n\u{25fb}\u{25fc}\n\n");
}

#[test]
fn render_glyph_frame_has_header_and_trailing_blank_line() {
    let e = engine(&["#"]);
    assert_eq!(e.render(FrameFormat::Glyphs), "Generation: 0\n\n\u{25fc}\n\n");
}

#[test]
fn render_digit_frame_separates_cells_with_spaces() {
    let e = engine(&["#.", ".#"]);
    assert_eq!(e.render(FrameFormat::Digits), "Generation: 0\n\n1 0\n0 1\n\n");
}

#[test]
fn render_row_picks_one_row() {
    let e = engine(&["#.", "##"]);
    assert_eq!(e.render_row(0, FrameFormat::Digits), "1 0");
    assert_eq!(e.render_row(1, FrameFormat::Glyphs), "\u{25fc}\u{25fc}");
}

#[test]
fn render_shows_advanced_generation() {
    let mut e = engine(&["...", ".#.", "..."]);
    for _ in 0..12 {
        e.next_generation();
    }
    let frame = e.render(FrameFormat::Digits);
    assert_eq!(frame, "Generation: 12\n\n0 0 0\n0 0 0\n0 0 0\n\n");
}

#[test]
fn stringify_leaves_engine_unchanged() {
    let mut e = engine(&["##", "##"]);
    let before = e.current_grid().clone();
    let _ = e.stringify();
    assert_eq!(*e.current_grid(), before);
    assert_eq!(*e.current_generation(), BigUint::from(0u32));
}
