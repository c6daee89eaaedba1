use tmuxmux_mobile::colors::{Rgb, TermColor};
use tmuxmux_mobile::render::{
    background_runs, cell_bg, cell_style, cursor_visible, draw_extent, fit_grid, resolve_colors, run_text,
    text_runs, BgRun, CellAttrs, Grid, ScreenCell, TextRun,
};

fn attrs(fg: TermColor, bg: TermColor) -> CellAttrs {
    CellAttrs { fg, bg, bold: false, dim: false, inverse: false, underline: false }
}

fn cell(fg: TermColor, bg: TermColor) -> Option<ScreenCell> {
    Some(ScreenCell { has_contents: true, wide: false, wide_continuation: false, attrs: attrs(fg, bg) })
}

fn rgb(r: u8, g: u8, b: u8) -> Rgb {
    Rgb { r, g, b }
}

#[test]
fn plain_cell_colors() {
    let a = attrs(TermColor::Default, TermColor::Default);
    assert_eq!(resolve_colors(&a), (rgb(0xd8, 0xd8, 0xd8), rgb(0, 0, 0)));
}

#[test]
fn inverse_swaps_with_default_fixups() {
    let mut a = attrs(TermColor::Default, TermColor::Default);
    a.inverse = true;
    assert_eq!(resolve_colors(&a), (rgb(0, 0, 0), rgb(0xd8, 0xd8, 0xd8)));
    let mut b = attrs(TermColor::Idx(2), TermColor::Idx(4));
    b.inverse = true;
    assert_eq!(resolve_colors(&b), (rgb(60, 110, 230), rgb(0, 205, 0)));
}

#[test]
fn dim_darkens_foreground() {
    let mut a = attrs(TermColor::Idx(1), TermColor::Default);
    a.dim = true;
    assert_eq!(resolve_colors(&a), (rgb(123, 0, 0), rgb(0, 0, 0)));
    let mut b = attrs(TermColor::Rgb(255, 10, 1), TermColor::Idx(1));
    b.dim = true;
    assert_eq!(resolve_colors(&b).0, rgb(153, 6, 0));
    assert_eq!(resolve_colors(&b).1, rgb(205, 0, 0));
}

#[test]
fn missing_cell_has_black_background() {
    assert_eq!(cell_bg(&None), rgb(0, 0, 0));
    assert_eq!(cell_bg(&cell(TermColor::Default, TermColor::Idx(1))), rgb(205, 0, 0));
}

#[test]
fn style_is_foreground_and_underline() {
    let mut a = attrs(TermColor::Idx(3), TermColor::Default);
    a.underline = true;
    assert_eq!(cell_style(&a), (rgb(205, 205, 0), true));
}

#[test]
fn background_runs_merge_equal_colors() {
    let red = TermColor::Idx(1);
    let blue = TermColor::Idx(4);
    let d = TermColor::Default;
    let row = vec![cell(d, d), cell(d, red), cell(d, red), cell(d, blue), None, cell(d, blue)];
    let runs = background_runs(&row);
    assert_eq!(
        runs,
        vec![
            BgRun { start: 1, end: 3, color: rgb(205, 0, 0) },
            BgRun { start: 3, end: 4, color: rgb(60, 110, 230) },
            BgRun { start: 5, end: 6, color: rgb(60, 110, 230) },
        ]
    );
    assert_eq!(background_runs(&vec![cell(d, d), None]), Vec::<BgRun>::new());
    assert_eq!(background_runs(&Vec::new()), Vec::<BgRun>::new());
}

#[test]
fn text_runs_group_by_style() {
    let d = TermColor::Default;
    let red = TermColor::Idx(1);
    let empty = Some(ScreenCell { has_contents: false, wide: false, wide_continuation: false, attrs: attrs(d, d) });
    let wide = Some(ScreenCell { has_contents: true, wide: true, wide_continuation: false, attrs: attrs(d, d) });
    let cont = Some(ScreenCell { has_contents: false, wide: false, wide_continuation: true, attrs: attrs(d, d) });
    let row = vec![
        cell(d, d),
        cell(d, d),
        empty,
        cell(red, d),
        wide,
        cont,
        cell(d, d),
        None,
        cell(d, red),
    ];
    assert_eq!(
        text_runs(&row),
        vec![
            TextRun { start: 0, end: 3, wide: false },
            TextRun { start: 3, end: 4, wide: false },
            TextRun { start: 4, end: 5, wide: true },
            TextRun { start: 6, end: 7, wide: false },
            TextRun { start: 8, end: 9, wide: false },
        ]
    );
}

#[test]
fn wide_character_at_row_end() {
    let d = TermColor::Default;
    let wide = Some(ScreenCell { has_contents: true, wide: true, wide_continuation: false, attrs: attrs(d, d) });
    assert_eq!(text_runs(&vec![cell(d, d), wide]), vec![
        TextRun { start: 0, end: 1, wide: false },
        TextRun { start: 1, end: 2, wide: true },
    ]);
}

#[test]
fn grid_is_clamped() {
    let g = fit_grid(1, 0);
    assert_eq!((g.cols, g.rows), (2, 2));
    let g = fit_grid(900, 900);
    assert_eq!((g.cols, g.rows), (500, 200));
    let g = fit_grid(80, 24);
    assert_eq!((g.cols, g.rows), (80, 24));
}

#[test]
fn extent_and_cursor() {
    let g = Grid { cols: 80, rows: 24 };
    assert_eq!(draw_extent(30, 100, &g), (24, 80));
    assert_eq!(draw_extent(10, 40, &g), (10, 40));
    assert!(cursor_visible(true, false, 3, 4, 24, 80));
    assert!(!cursor_visible(false, false, 3, 4, 24, 80));
    assert!(!cursor_visible(true, true, 3, 4, 24, 80));
    assert!(!cursor_visible(true, false, 24, 4, 24, 80));
}

#[test]
fn background_runs_cover_every_colored_cell_once() {
    let d = TermColor::Default;
    let colors = [d, TermColor::Idx(1), TermColor::Idx(1), d, TermColor::Idx(2), TermColor::Idx(1)];
    let row: Vec<_> = colors.iter().map(|&c| cell(d, c)).collect();
    let runs = background_runs(&row);
    for (i, c) in colors.iter().enumerate() {
        let covering = runs.iter().filter(|r| r.start <= i && i < r.end).count();
        assert_eq!(covering, if *c == TermColor::Default { 0 } else { 1 });
    }
    assert_eq!(runs.len(), 3);
}

fn cells(texts: &[&str]) -> Vec<String> {
    texts.iter().map(|t| t.to_string()).collect()
}

#[test]
fn run_text_fills_empty_cells_and_trims_the_end() {
    assert_eq!(run_text(&cells(&["a", "", "b", "", ""])), Some("a b".to_string()));
    assert_eq!(run_text(&cells(&["", "x"])), Some(" x".to_string()));
    assert_eq!(run_text(&cells(&["\u{e9}", "\t", ""])), Some("\u{e9}".to_string()));
    assert_eq!(run_text(&cells(&["\t"])), Some(String::new()));
}

#[test]
fn run_text_skips_runs_of_spaces() {
    assert_eq!(run_text(&cells(&[])), None);
    assert_eq!(run_text(&cells(&["", " ", ""])), None);
}
