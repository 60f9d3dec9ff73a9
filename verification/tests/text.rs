use game_of_life::Universe;

#[test]
fn render_draws_one_line_per_row() {
    let mut u = Universe::new();
    u.set_width(2);
    u.set_height(2);
    assert!(u.set_cells(&[(0, 0)]).is_ok());
    let text = u.render();
    assert_eq!(text, "\u{25fc}\u{25fb}\n\u{25fb}\u{25fb}\n");
}

#[test]
fn render_of_empty_grid_is_empty() {
    let mut u = Universe::new();
    u.set_height(0);
    assert_eq!(u.render(), "");
}

#[test]
fn render_length_counts_glyphs_and_newlines() {
    let u = Universe::new();
    let text = u.render();
    assert_eq!(text.chars().count(), 64 * 65);
    assert_eq!(text.lines().count(), 64);
}
