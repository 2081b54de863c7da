use grapher::fx::SCALE;
use grapher::graph::{render_text, Plotter2D, WritePlotter};
use grapher::{CircleGrapher, GridSampler, TrueGrapher, ZeroGrapher};

/// Samples a single point at `(0, 0)` with the given disk parameter: the
/// one cell then holds exactly `radius`.
fn one_cell_grid(radius: i64) -> grapher::grid::SampleGrid {
    CircleGrapher::new(radius)
        .draw_2d((1, 1), (0, 0, SCALE, SCALE))
        .unwrap()
}

#[test]
fn zero_grid_renders_dots() {
    let g = ZeroGrapher
        .draw_2d((2, 2), (-SCALE, -SCALE, SCALE, SCALE))
        .unwrap();
    assert_eq!(render_text(&g), "\u{b7} \u{b7} \n\u{b7} \u{b7} \n");
}

#[test]
fn one_grid_renders_full_glyphs() {
    let g = TrueGrapher
        .draw_2d((2, 3), (0, 0, SCALE, SCALE))
        .unwrap();
    assert_eq!(render_text(&g), "X X X \nX X X \n");
}

#[test]
fn glyph_thresholds_are_exact() {
    // Just below and at one hundredth of one.
    assert_eq!(render_text(&one_cell_grid(655)), "\u{b7} \n");
    assert_eq!(render_text(&one_cell_grid(656)), "* \n");
    // Just below and at one half.
    assert_eq!(render_text(&one_cell_grid(32767)), "* \n");
    assert_eq!(render_text(&one_cell_grid(32768)), "O \n");
    // Just below and at ninety-nine hundredths.
    assert_eq!(render_text(&one_cell_grid(64880)), "O \n");
    assert_eq!(render_text(&one_cell_grid(64881)), "X \n");
}

#[test]
fn glyphs_go_by_magnitude() {
    assert_eq!(render_text(&one_cell_grid(-16384)), "* \n");
    assert_eq!(render_text(&one_cell_grid(-2 * SCALE)), "X \n");
}

#[test]
fn write_plotter_renders_into_sink() {
    let g = ZeroGrapher.draw_2d((1, 2), (0, 0, SCALE, SCALE)).unwrap();
    let mut plotter = WritePlotter::new(Vec::new());
    plotter.plot_2d(&g).unwrap();
    let written = plotter.into_writer();
    assert_eq!(written, "\u{b7} \u{b7} \n".as_bytes());
}

#[test]
fn empty_grid_renders_empty_text() {
    let g = ZeroGrapher.draw_2d((0, 3), (0, 0, SCALE, SCALE)).unwrap();
    assert_eq!(render_text(&g), "");
    let g = ZeroGrapher.draw_2d((2, 0), (0, 0, SCALE, SCALE)).unwrap();
    assert_eq!(render_text(&g), "\n\n");
}
