//! What a terminal screen looks like when painted: cell colors, the runs of
//! background rectangles and of text, the grid that fits, and the cursor.
//! The painting itself happens in the UI.
use vstd::prelude::*;

use crate::text::{char_is_whitespace, chars_of, string_from, trim_end};

use crate::colors::{
    bg_color,
    convert_bg,
    convert_fg,
    default_bg,
    default_fg,
    fg_color,
    rgb,
    spec_default_bg,
    spec_default_fg,
    Rgb,
    TermColor,
};

verus! {

/// Grid geometry chosen for a given rect + font, so the caller can resize the
/// remote PTY to match.
pub struct Grid {
    pub cols: usize,
    pub rows: usize,
}

/// The attributes of one screen cell that decide its colors.
#[derive(Clone, Copy, PartialEq, Eq, Debug, Structural)]
pub struct CellAttrs {
    pub fg: TermColor,
    pub bg: TermColor,
    pub bold: bool,
    pub dim: bool,
    pub inverse: bool,
    pub underline: bool,
}

/// One screen cell as the painter reads it.
#[derive(Clone, Copy, PartialEq, Eq, Debug, Structural)]
pub struct ScreenCell {
    /// The cell holds text.
    pub has_contents: bool,
    /// The text is a wide character (it spans this cell and the next).
    pub wide: bool,
    /// The cell is the second half of a wide character.
    pub wide_continuation: bool,
    pub attrs: CellAttrs,
}

/// 60% of each channel, truncated.
pub open spec fn dimmed(c: Rgb) -> Rgb {
    rgb((c.r * 3 / 5) as u8, (c.g * 3 / 5) as u8, (c.b * 3 / 5) as u8)
}

/// The (foreground, background) painted for a cell: inverse swaps them, with
/// a default foreground becoming an off-white background and a default
/// background becoming a black foreground; dim darkens the foreground.
pub open spec fn cell_colors(cell: CellAttrs) -> (Rgb, Rgb) {
    let fg0 = fg_color(cell.fg, cell.bold);
    let bg0 = bg_color(cell.bg);
    let fg1 = if cell.inverse {
        if cell.bg == TermColor::Default {
            spec_default_bg()
        } else {
            bg0
        }
    } else {
        fg0
    };
    let bg1 = if cell.inverse {
        if cell.fg == TermColor::Default {
            spec_default_fg()
        } else {
            fg0
        }
    } else {
        bg0
    };
    (if cell.dim {
        dimmed(fg1)
    } else {
        fg1
    }, bg1)
}

/// A cell that is neither inverse nor dim is painted in the palette colors
/// of its attributes: its foreground color (brightened when bold) on its
/// background color. Inverse swaps the two, with a default foreground
/// becoming the off-white background and a default background the black
/// foreground; dim darkens the foreground to 60%. Underlining never
/// changes the colors.
pub proof fn lemma_cell_colors(cell: CellAttrs)
    ensures
        !cell.inverse && !cell.dim ==> cell_colors(cell) == (fg_color(cell.fg, cell.bold), bg_color(cell.bg)),
        cell.inverse && !cell.dim ==> cell_colors(cell) == (
            if cell.bg == TermColor::Default { spec_default_bg() } else { bg_color(cell.bg) },
            if cell.fg == TermColor::Default { spec_default_fg() } else { fg_color(cell.fg, cell.bold) },
        ),
        cell.dim ==> cell_colors(cell) == (
            dimmed(cell_colors(CellAttrs { dim: false, ..cell }).0),
            cell_colors(CellAttrs { dim: false, ..cell }).1,
        ),
        cell_colors(cell) == cell_colors(CellAttrs { underline: !cell.underline, ..cell }),
{
}

/// The background behind a cell; black where the screen has no cell.
pub open spec fn cell_background(cell: Option<ScreenCell>) -> Rgb {
    match cell {
        Some(c) => cell_colors(c.attrs).1,
        None => spec_default_bg(),
    }
}

/// What groups text cells into one run: foreground color and underline.
pub open spec fn cell_text_style(cell: CellAttrs) -> (Rgb, bool) {
    (cell_colors(cell).0, cell.underline)
}

pub fn resolve_colors(cell: &CellAttrs) -> (r: (Rgb, Rgb))
    ensures
        r == cell_colors(*cell),
{
    let mut fg = convert_fg(cell.fg, cell.bold);
    let mut bg = convert_bg(cell.bg);
    if cell.inverse {
        let t = fg;
        fg = bg;
        bg = t;
        if cell.fg == TermColor::Default {
            bg = default_fg();
        }
        if cell.bg == TermColor::Default {
            fg = default_bg();
        }
    }
    if cell.dim {
        fg = Rgb {
            r: (fg.r as u32 * 3 / 5) as u8,
            g: (fg.g as u32 * 3 / 5) as u8,
            b: (fg.b as u32 * 3 / 5) as u8,
        };
    }
    (fg, bg)
}

pub fn cell_bg(cell: &Option<ScreenCell>) -> (c: Rgb)
    ensures
        c == cell_background(*cell),
{
    match cell {
        Some(c) => resolve_colors(&c.attrs).1,
        None => default_bg(),
    }
}

pub fn cell_style(cell: &CellAttrs) -> (s: (Rgb, bool))
    ensures
        s == cell_text_style(*cell),
{
    let (fg, _) = resolve_colors(cell);
    (fg, cell.underline)
}

/// A background rectangle: cells `start..end` of a row share `color`.
#[derive(Clone, Copy, PartialEq, Eq, Debug, Structural)]
pub struct BgRun {
    pub start: usize,
    pub end: usize,
    pub color: Rgb,
}

/// `r` is a maximal run of equal, non-black backgrounds in `row`.
pub open spec fn is_bg_run(row: Seq<Option<ScreenCell>>, r: BgRun) -> bool {
    &&& r.start < r.end <= row.len()
    &&& r.color != spec_default_bg()
    &&& forall|j: int| r.start <= j < r.end ==> cell_background(#[trigger] row[j]) == r.color
    &&& (r.start == 0 || cell_background(row[r.start - 1]) != r.color)
    &&& (r.end == row.len() || cell_background(row[r.end as int]) != r.color)
}

/// `runs` are the maximal runs of equal, non-black backgrounds of `row`, left
/// to right, covering every cell whose background is not black.
pub open spec fn are_bg_runs(row: Seq<Option<ScreenCell>>, runs: Seq<BgRun>) -> bool {
    &&& forall|k: int| 0 <= k < runs.len() ==> is_bg_run(row, #[trigger] runs[k])
    &&& forall|k: int, l: int|
        0 <= k < l < runs.len() ==> (#[trigger] runs[k]).end <= (#[trigger] runs[l]).start
    &&& forall|i: int|
        0 <= i < row.len() && cell_background(#[trigger] row[i]) != spec_default_bg() ==> exists|
            k: int,
        | 0 <= k < runs.len() && (#[trigger] runs[k]).start <= i < runs[k].end
}

/// Two maximal runs of a row that start at the same cell are the same run.
proof fn lemma_bg_run_by_start(row: Seq<Option<ScreenCell>>, r1: BgRun, r2: BgRun)
    requires
        is_bg_run(row, r1),
        is_bg_run(row, r2),
        r1.start == r2.start,
    ensures
        r1 == r2,
{
    assert(cell_background(row[r1.start as int]) == r1.color);
    assert(cell_background(row[r2.start as int]) == r2.color);
    if r1.end < r2.end {
        assert(cell_background(row[r1.end as int]) == r2.color);
    } else if r2.end < r1.end {
        assert(cell_background(row[r2.end as int]) == r1.color);
    }
}

/// A cell where a run of non-black background begins is the start of one of
/// the runs.
proof fn lemma_bg_run_start_found(row: Seq<Option<ScreenCell>>, runs: Seq<BgRun>, i: int)
    requires
        are_bg_runs(row, runs),
        0 <= i < row.len(),
        cell_background(row[i]) != spec_default_bg(),
        i == 0 || cell_background(row[i - 1]) != cell_background(row[i]),
    ensures
        exists|k: int| 0 <= k < runs.len() && (#[trigger] runs[k]).start == i,
{
    let k = choose|k: int| 0 <= k < runs.len() && (#[trigger] runs[k]).start <= i < runs[k].end;
    assert(is_bg_run(row, runs[k]));
    if runs[k].start < i {
        assert(cell_background(row[i - 1]) == runs[k].color);
        assert(cell_background(row[i]) == runs[k].color);
    }
}

proof fn lemma_bg_runs_agree_up_to(
    row: Seq<Option<ScreenCell>>,
    rs1: Seq<BgRun>,
    rs2: Seq<BgRun>,
    k: int,
)
    requires
        are_bg_runs(row, rs1),
        are_bg_runs(row, rs2),
        0 <= k < rs1.len(),
        k < rs2.len(),
    ensures
        forall|j: int| 0 <= j <= k ==> rs1[j] == rs2[j],
    decreases k,
{
    if k > 0 {
        lemma_bg_runs_agree_up_to(row, rs1, rs2, k - 1);
    }
    let a = rs1[k];
    let b = rs2[k];
    assert(is_bg_run(row, a));
    assert(is_bg_run(row, b));
    if a.start < b.start {
        lemma_bg_run_start_found(row, rs2, a.start as int);
        let k2 = choose|k2: int| 0 <= k2 < rs2.len() && (#[trigger] rs2[k2]).start == a.start;
        assert(is_bg_run(row, rs2[k2]));
        if k2 >= k {
            if k2 > k {
                assert(rs2[k].end <= rs2[k2].start);
            }
        } else {
            assert(rs1[k2] == rs2[k2]);
            assert(rs1[k2].end <= rs1[k].start);
            assert(is_bg_run(row, rs1[k2]));
        }
    } else if b.start < a.start {
        lemma_bg_run_start_found(row, rs1, b.start as int);
        let k1 = choose|k1: int| 0 <= k1 < rs1.len() && (#[trigger] rs1[k1]).start == b.start;
        assert(is_bg_run(row, rs1[k1]));
        if k1 >= k {
            if k1 > k {
                assert(rs1[k].end <= rs1[k1].start);
            }
        } else {
            assert(rs1[k1] == rs2[k1]);
            assert(rs2[k1].end <= rs2[k].start);
            assert(is_bg_run(row, rs2[k1]));
        }
    }
    lemma_bg_run_by_start(row, a, b);
}

proof fn lemma_bg_runs_no_longer(row: Seq<Option<ScreenCell>>, rs1: Seq<BgRun>, rs2: Seq<BgRun>)
    requires
        are_bg_runs(row, rs1),
        are_bg_runs(row, rs2),
    ensures
        rs1.len() <= rs2.len(),
{
    if rs1.len() > rs2.len() {
        let n = rs2.len() as int;
        if n > 0 {
            lemma_bg_runs_agree_up_to(row, rs1, rs2, n - 1);
        }
        let a = rs1[n];
        assert(is_bg_run(row, a));
        lemma_bg_run_start_found(row, rs2, a.start as int);
        let k2 = choose|k2: int| 0 <= k2 < rs2.len() && (#[trigger] rs2[k2]).start == a.start;
        assert(rs1[k2] == rs2[k2]);
        assert(rs1[k2].end <= rs1[n].start);
        assert(is_bg_run(row, rs1[k2]));
    }
}

/// The background runs of a row are unique: any two lists that both are the
/// maximal runs of non-black background, left to right, covering every such
/// cell, are the same list. So [`background_runs`]' contract fixes its result.
pub proof fn lemma_bg_runs_unique(row: Seq<Option<ScreenCell>>, rs1: Seq<BgRun>, rs2: Seq<BgRun>)
    requires
        are_bg_runs(row, rs1),
        are_bg_runs(row, rs2),
    ensures
        rs1 == rs2,
{
    lemma_bg_runs_no_longer(row, rs1, rs2);
    lemma_bg_runs_no_longer(row, rs2, rs1);
    if rs1.len() > 0 {
        lemma_bg_runs_agree_up_to(row, rs1, rs2, rs1.len() - 1);
    }
    assert(rs1 =~= rs2);
}

/// The background rectangles of a row, merged into runs. Black (the base
/// color) needs no rectangle.
pub fn background_runs(row: &Vec<Option<ScreenCell>>) -> (runs: Vec<BgRun>)
    ensures
        are_bg_runs(row@, runs@),
{
    let n = row.len();
    let mut runs: Vec<BgRun> = Vec::new();
    let mut col: usize = 0;
    while col < n
        invariant
            n == row@.len(),
            col <= n,
            col == 0 || col == n || cell_background(row@[col - 1]) != cell_background(
                row@[col as int],
            ),
            forall|k: int| 0 <= k < runs@.len() ==> is_bg_run(row@, #[trigger] runs@[k]),
            forall|k: int| 0 <= k < runs@.len() ==> (#[trigger] runs@[k]).end <= col,
            forall|k: int, l: int|
                0 <= k < l < runs@.len() ==> (#[trigger] runs@[k]).end <= (
                #[trigger] runs@[l]).start,
            forall|i: int|
                0 <= i < col && cell_background(#[trigger] row@[i]) != spec_default_bg() ==> exists|
                    k: int,
                | 0 <= k < runs@.len() && (#[trigger] runs@[k]).start <= i < runs@[k].end,
        decreases n - col,
    {
        let bg = cell_bg(&row[col]);
        let mut run = col + 1;
        while run < n && cell_bg(&row[run]) == bg
            invariant
                n == row@.len(),
                col < run <= n,
                bg == cell_background(row@[col as int]),
                forall|j: int| col <= j < run ==> cell_background(#[trigger] row@[j]) == bg,
            decreases n - run,
        {
            run = run + 1;
        }
        let ghost old_runs = runs@;
        if bg != default_bg() {
            let r = BgRun { start: col, end: run, color: bg };
            runs.push(r);
            assert forall|i: int|
                0 <= i < run && cell_background(#[trigger] row@[i]) != spec_default_bg() implies exists|
                    k: int,
                | 0 <= k < runs@.len() && (#[trigger] runs@[k]).start <= i < runs@[k].end by {
                if i < col {
                    let k = choose|k: int|
                        0 <= k < old_runs.len() && (#[trigger] old_runs[k]).start <= i
                            < old_runs[k].end;
                    assert(runs@[k] == old_runs[k]);
                } else {
                    assert(runs@[runs@.len() - 1] == r);
                }
            }
        } else {
            assert forall|i: int|
                0 <= i < run && cell_background(#[trigger] row@[i]) != spec_default_bg() implies exists|
                    k: int,
                | 0 <= k < runs@.len() && (#[trigger] runs@[k]).start <= i < runs@[k].end by {
                if col <= i {
                    assert(cell_background(row@[i]) == bg);
                }
            }
        }
        col = run;
    }
    runs
}

/// A run of text to paint: cells `start..end` of a row. A wide character is a
/// run of its own covering just its first cell.
#[derive(Clone, Copy, PartialEq, Eq, Debug, Structural)]
pub struct TextRun {
    pub start: usize,
    pub end: usize,
    pub wide: bool,
}

/// A cell where a run of text may start: it exists, holds text, and is not
/// the second half of a wide character.
pub open spec fn starts_text(c: Option<ScreenCell>) -> bool {
    c matches Some(x) && x.has_contents && !x.wide_continuation
}

/// `c` stops a run of text in `style`: it is missing, wide, the second half
/// of a wide character, or styled differently.
pub open spec fn breaks_span(c: Option<ScreenCell>, style: (Rgb, bool)) -> bool {
    match c {
        None => true,
        Some(d) => d.wide || d.wide_continuation || cell_text_style(d.attrs) != style,
    }
}

/// The text style of cell `i` of `row` (black, not underlined, where the
/// screen has no cell).
pub open spec fn style_at(row: Seq<Option<ScreenCell>>, i: int) -> (Rgb, bool) {
    match row[i] {
        Some(c) => cell_text_style(c.attrs),
        None => (spec_default_bg(), false),
    }
}

/// `r` is a run of text of `row`: it starts at a cell where text starts; a
/// wide character is painted alone; otherwise the run takes every following
/// cell that does not stop it, and ends at the row's end or at a cell that
/// does.
pub open spec fn is_text_run(row: Seq<Option<ScreenCell>>, r: TextRun) -> bool {
    &&& r.start < r.end <= row.len()
    &&& starts_text(row[r.start as int])
    &&& r.wide == (row[r.start as int] matches Some(c) && c.wide)
    &&& r.wide ==> r.end == r.start + 1
    &&& !r.wide ==> forall|j: int|
        r.start < j < r.end ==> !breaks_span(#[trigger] row[j], style_at(row, r.start as int))
    &&& !r.wide ==> (r.end == row.len() || breaks_span(
        row[r.end as int],
        style_at(row, r.start as int),
    ))
}

/// The cells a run accounts for end here: past its last cell, and for a wide
/// character past the second half it covers.
pub open spec fn run_reach(r: TextRun) -> int {
    if r.wide {
        r.start + 2
    } else {
        r.end as int
    }
}

/// `runs` are the text runs of `row`: each is a run of text, they come left
/// to right without covering each other's cells, and every cell where text
/// starts is covered by one of them.
pub open spec fn are_text_runs(row: Seq<Option<ScreenCell>>, runs: Seq<TextRun>) -> bool {
    &&& forall|k: int| 0 <= k < runs.len() ==> is_text_run(row, #[trigger] runs[k])
    &&& forall|k: int, l: int|
        0 <= k < l < runs.len() ==> run_reach(#[trigger] runs[k]) <= (#[trigger] runs[l]).start
    &&& forall|i: int|
        0 <= i < row.len() && starts_text(#[trigger] row[i]) ==> exists|k: int|
            0 <= k < runs.len() && (#[trigger] runs[k]).start <= i < run_reach(runs[k])
}

/// Where a run of text in `style` that has reached cell `run` ends.
spec fn span_end(row: Seq<Option<ScreenCell>>, style: (Rgb, bool), run: int) -> int
    decreases row.len() - run,
{
    if run < 0 || run >= row.len() {
        row.len() as int
    } else if breaks_span(row[run], style) {
        run
    } else {
        span_end(row, style, run + 1)
    }
}

proof fn lemma_span_end(row: Seq<Option<ScreenCell>>, style: (Rgb, bool), run: int)
    requires
        0 <= run <= row.len(),
    ensures
        run <= span_end(row, style, run) <= row.len(),
        forall|j: int| run <= j < span_end(row, style, run) ==> !breaks_span(#[trigger] row[j], style),
        span_end(row, style, run) == row.len() || breaks_span(
            row[span_end(row, style, run)],
            style,
        ),
    decreases row.len() - run,
{
    if run < row.len() && !breaks_span(row[run], style) {
        lemma_span_end(row, style, run + 1);
    }
}

/// The text runs of `row` from cell `col` on, scanning left to right.
spec fn text_runs_from(row: Seq<Option<ScreenCell>>, col: int) -> Seq<TextRun>
    decreases row.len() - col,
{
    if col < 0 || col >= row.len() {
        Seq::empty()
    } else if !starts_text(row[col]) {
        text_runs_from(row, col + 1)
    } else if row[col] matches Some(c) && c.wide {
        let next = if col + 2 <= row.len() {
            col + 2
        } else {
            row.len() as int
        };
        seq![TextRun { start: col as usize, end: (col + 1) as usize, wide: true }] + text_runs_from(
            row,
            next,
        )
    } else {
        let e = span_end(row, style_at(row, col), col + 1);
        proof {
            lemma_span_end(row, style_at(row, col), col + 1);
        }
        seq![TextRun { start: col as usize, end: e as usize, wide: false }] + text_runs_from(row, e)
    }
}

proof fn lemma_text_runs_from(row: Seq<Option<ScreenCell>>, col: int)
    requires
        0 <= col,
        row.len() <= usize::MAX,
    ensures
        forall|k: int|
            0 <= k < text_runs_from(row, col).len() ==> is_text_run(
                row,
                #[trigger] text_runs_from(row, col)[k],
            ) && col <= text_runs_from(row, col)[k].start,
        forall|k: int, l: int|
            0 <= k < l < text_runs_from(row, col).len() ==> run_reach(
                #[trigger] text_runs_from(row, col)[k],
            ) <= (#[trigger] text_runs_from(row, col)[l]).start,
        forall|i: int|
            col <= i < row.len() && starts_text(#[trigger] row[i]) ==> exists|k: int|
                0 <= k < text_runs_from(row, col).len() && (#[trigger] text_runs_from(
                    row,
                    col,
                )[k]).start <= i < run_reach(text_runs_from(row, col)[k]),
    decreases row.len() - col,
{
    let all = text_runs_from(row, col);
    if col < row.len() {
        if !starts_text(row[col]) {
            lemma_text_runs_from(row, col + 1);
            assert(all == text_runs_from(row, col + 1));
            assert forall|i: int| col <= i < row.len() && starts_text(#[trigger] row[i]) implies exists|
                k: int,
            | 0 <= k < all.len() && (#[trigger] all[k]).start <= i < run_reach(all[k]) by {
                assert(i != col);
            }
        } else {
            let wide = row[col] matches Some(c) && c.wide;
            let (head, next) = if wide {
                let next = if col + 2 <= row.len() {
                    col + 2
                } else {
                    row.len() as int
                };
                (TextRun { start: col as usize, end: (col + 1) as usize, wide: true }, next)
            } else {
                let e = span_end(row, style_at(row, col), col + 1);
                lemma_span_end(row, style_at(row, col), col + 1);
                (TextRun { start: col as usize, end: e as usize, wide: false }, e)
            };
            lemma_text_runs_from(row, next);
            let rest = text_runs_from(row, next);
            assert(all == seq![head] + rest);
            assert(is_text_run(row, head));
            assert forall|k: int| 0 <= k < all.len() implies is_text_run(row, #[trigger] all[k])
                && col <= all[k].start by {
                if k > 0 {
                    assert(all[k] == rest[k - 1]);
                }
            }
            assert forall|k: int, l: int| 0 <= k < l < all.len() implies run_reach(
                #[trigger] all[k],
            ) <= (#[trigger] all[l]).start by {
                assert(all[l] == rest[l - 1]);
                if k > 0 {
                    assert(all[k] == rest[k - 1]);
                }
            }
            assert forall|i: int| col <= i < row.len() && starts_text(#[trigger] row[i]) implies exists|
                k: int,
            | 0 <= k < all.len() && (#[trigger] all[k]).start <= i < run_reach(all[k]) by {
                if i < next {
                    assert(all[0] == head);
                } else {
                    let k = choose|k: int|
                        0 <= k < rest.len() && (#[trigger] rest[k]).start <= i < run_reach(rest[k]);
                    assert(all[k + 1] == rest[k]);
                }
            }
        }
    }
}

proof fn lemma_text_run_by_start(row: Seq<Option<ScreenCell>>, r1: TextRun, r2: TextRun)
    requires
        is_text_run(row, r1),
        is_text_run(row, r2),
        r1.start == r2.start,
    ensures
        r1 == r2,
{
    if !r1.wide {
        if r1.end < r2.end {
            assert(!breaks_span(row[r1.end as int], style_at(row, r2.start as int)));
        } else if r2.end < r1.end {
            assert(!breaks_span(row[r2.end as int], style_at(row, r1.start as int)));
        }
    }
}

proof fn lemma_text_runs_agree_up_to(
    row: Seq<Option<ScreenCell>>,
    rs1: Seq<TextRun>,
    rs2: Seq<TextRun>,
    k: int,
)
    requires
        are_text_runs(row, rs1),
        are_text_runs(row, rs2),
        0 <= k < rs1.len(),
        k < rs2.len(),
    ensures
        forall|j: int| 0 <= j <= k ==> rs1[j] == rs2[j],
    decreases k,
{
    if k > 0 {
        lemma_text_runs_agree_up_to(row, rs1, rs2, k - 1);
    }
    let a = rs1[k];
    let b = rs2[k];
    assert(is_text_run(row, a));
    assert(is_text_run(row, b));
    if a.start < b.start {
        let i = a.start as int;
        assert(starts_text(row[i]));
        let k2 = choose|k2: int|
            0 <= k2 < rs2.len() && (#[trigger] rs2[k2]).start <= i < run_reach(rs2[k2]);
        if k2 > k {
            assert(run_reach(rs2[k]) <= rs2[k2].start);
        } else if k2 < k {
            assert(rs1[k2] == rs2[k2]);
            assert(run_reach(rs1[k2]) <= rs1[k].start);
        }
    } else if b.start < a.start {
        let i = b.start as int;
        assert(starts_text(row[i]));
        let k1 = choose|k1: int|
            0 <= k1 < rs1.len() && (#[trigger] rs1[k1]).start <= i < run_reach(rs1[k1]);
        if k1 > k {
            assert(run_reach(rs1[k]) <= rs1[k1].start);
        } else if k1 < k {
            assert(rs1[k1] == rs2[k1]);
            assert(run_reach(rs2[k1]) <= rs2[k].start);
        }
    }
    lemma_text_run_by_start(row, a, b);
}

proof fn lemma_text_runs_no_longer(row: Seq<Option<ScreenCell>>, rs1: Seq<TextRun>, rs2: Seq<TextRun>)
    requires
        are_text_runs(row, rs1),
        are_text_runs(row, rs2),
    ensures
        rs1.len() <= rs2.len(),
{
    if rs1.len() > rs2.len() {
        let n = rs2.len() as int;
        if n > 0 {
            lemma_text_runs_agree_up_to(row, rs1, rs2, n - 1);
        }
        let a = rs1[n];
        assert(is_text_run(row, a));
        let i = a.start as int;
        assert(starts_text(row[i]));
        let k2 = choose|k2: int|
            0 <= k2 < rs2.len() && (#[trigger] rs2[k2]).start <= i < run_reach(rs2[k2]);
        assert(rs1[k2] == rs2[k2]);
        assert(run_reach(rs1[k2]) <= rs1[n].start);
    }
}

/// The text runs of a row are unique: any two lists that are both the text
/// runs of the row are the same list. So [`text_runs`]' contract fixes its
/// result.
pub proof fn lemma_text_runs_unique(row: Seq<Option<ScreenCell>>, rs1: Seq<TextRun>, rs2: Seq<TextRun>)
    requires
        are_text_runs(row, rs1),
        are_text_runs(row, rs2),
    ensures
        rs1 == rs2,
{
    lemma_text_runs_no_longer(row, rs1, rs2);
    lemma_text_runs_no_longer(row, rs2, rs1);
    if rs1.len() > 0 {
        lemma_text_runs_agree_up_to(row, rs1, rs2, rs1.len() - 1);
    }
    assert(rs1 =~= rs2);
}

/// Whether a text run in `style` stops at `cell`.
fn ends_span(cell: &Option<ScreenCell>, style: (Rgb, bool)) -> (r: bool)
    ensures
        r == breaks_span(*cell, style),
{
    match cell {
        None => true,
        Some(next) => {
            let ns = cell_style(&next.attrs);
            next.wide || next.wide_continuation || ns.0 != style.0 || ns.1 != style.1
        },
    }
}

/// The text runs of a row, grouped by style.
pub fn text_runs(row: &Vec<Option<ScreenCell>>) -> (runs: Vec<TextRun>)
    ensures
        are_text_runs(row@, runs@),
{
    let n = row.len();
    let mut runs: Vec<TextRun> = Vec::new();
    let mut col: usize = 0;
    while col < n
        invariant
            n == row@.len(),
            runs@ + text_runs_from(row@, col as int) == text_runs_from(row@, 0),
        decreases n - col,
    {
        let ghost before = runs@;
        match &row[col] {
            None => {
                col = col + 1;
            },
            Some(cell) => {
                if cell.wide_continuation || !cell.has_contents {
                    col = col + 1;
                } else {
                    let style = cell_style(&cell.attrs);
                    if cell.wide {
                        runs.push(TextRun { start: col, end: col + 1, wide: true });
                        let next = if col + 1 < n {
                            col + 2
                        } else {
                            n
                        };
                        assert(runs@ + text_runs_from(row@, next as int) =~= before
                            + text_runs_from(row@, col as int));
                        col = next;
                    } else {
                        let mut run = col + 1;
                        proof {
                            lemma_span_end(row@, style, run as int);
                        }
                        while run < n && !ends_span(&row[run], style)
                            invariant
                                n == row@.len(),
                                col < run <= n,
                                span_end(row@, style, col + 1) == span_end(row@, style, run as int),
                            decreases n - run,
                        {
                            run = run + 1;
                        }
                        runs.push(TextRun { start: col, end: run, wide: false });
                        assert(runs@ + text_runs_from(row@, run as int) =~= before + text_runs_from(
                            row@,
                            col as int,
                        ));
                        col = run;
                    }
                }
            },
        }
    }
    assert(runs@ + Seq::<TextRun>::empty() =~= runs@);
    proof {
        lemma_text_runs_from(row@, 0);
    }
    runs
}

pub open spec fn clamp(v: int, lo: int, hi: int) -> int {
    if v < lo {
        lo
    } else if v > hi {
        hi
    } else {
        v
    }
}

/// The grid chosen when `cols_fit` glyphs fit across the rect and `rows_fit`
/// lines fit down it: at least 2x2, at most 500 columns and 200 rows.
pub fn fit_grid(cols_fit: usize, rows_fit: usize) -> (g: Grid)
    ensures
        g.cols == clamp(cols_fit as int, 2, 500),
        g.rows == clamp(rows_fit as int, 2, 200),
{
    let cols = if cols_fit < 2 {
        2
    } else if cols_fit > 500 {
        500
    } else {
        cols_fit
    };
    let rows = if rows_fit < 2 {
        2
    } else if rows_fit > 200 {
        200
    } else {
        rows_fit
    };
    Grid { cols, rows }
}

/// How many rows and columns of the screen get painted: those that both the
/// screen and the grid have.
pub fn draw_extent(screen_rows: u16, screen_cols: u16, grid: &Grid) -> (e: (usize, usize))
    ensures
        e.0 == if (screen_rows as int) < grid.rows {
            screen_rows as int
        } else {
            grid.rows as int
        },
        e.1 == if (screen_cols as int) < grid.cols {
            screen_cols as int
        } else {
            grid.cols as int
        },
{
    let rows = if (screen_rows as usize) < grid.rows {
        screen_rows as usize
    } else {
        grid.rows
    };
    let cols = if (screen_cols as usize) < grid.cols {
        screen_cols as usize
    } else {
        grid.cols
    };
    (rows, cols)
}

/// The cursor is painted when the terminal has focus, the application has
/// not hidden it, and it lies inside the painted area.
pub fn cursor_visible(
    focused: bool,
    hidden: bool,
    row: u16,
    col: u16,
    draw_rows: usize,
    draw_cols: usize,
) -> (v: bool)
    ensures
        v == (focused && !hidden && (row as int) < draw_rows && (col as int) < draw_cols),
{
    focused && !hidden && (row as usize) < draw_rows && (col as usize) < draw_cols
}

/// What one cell puts into the text of a run: its text, or a space where it
/// holds none.
pub open spec fn cell_chars(c: Seq<char>) -> Seq<char> {
    if c.len() == 0 {
        seq![' ']
    } else {
        c
    }
}

/// The text of a run whose cells hold `cells`, left to right.
pub open spec fn run_chars(cells: Seq<String>) -> Seq<char>
    decreases cells.len(),
{
    if cells.len() == 0 {
        Seq::empty()
    } else {
        run_chars(cells.drop_last()) + cell_chars(cells.last()@)
    }
}

/// Every character of `s` is a space.
pub open spec fn all_spaces(s: Seq<char>) -> bool {
    forall|i: int| 0 <= i < s.len() ==> s[i] == ' '
}

/// What to paint for a run of text whose cells hold `cells`: nothing when
/// the run is only spaces, else its text without trailing white space.
pub fn run_text(cells: &Vec<String>) -> (r: Option<String>)
    ensures
        r is None <==> all_spaces(run_chars(cells@)),
        r matches Some(t) ==> t@ == trim_end(run_chars(cells@)),
{
    let mut v: Vec<char> = Vec::new();
    let mut i: usize = 0;
    while i < cells.len()
        invariant
            i <= cells@.len(),
            v@ == run_chars(cells@.take(i as int)),
        decreases cells@.len() - i,
    {
        let mut cs = chars_of(cells[i].as_str());
        proof {
            let t = cells@.take(i + 1);
            assert(t.drop_last() =~= cells@.take(i as int));
            assert(t.last() == cells@[i as int]);
        }
        if cs.len() == 0 {
            v.push(' ');
        } else {
            v.append(&mut cs);
        }
        i = i + 1;
    }
    assert(cells@.take(cells@.len() as int) =~= cells@);
    let mut all = true;
    let mut j: usize = 0;
    while j < v.len()
        invariant
            j <= v@.len(),
            all == (forall|k: int| 0 <= k < j ==> v@[k] == ' '),
        decreases v@.len() - j,
    {
        if v[j] != ' ' {
            all = false;
        }
        j = j + 1;
    }
    if all {
        return None;
    }
    let mut b = v.len();
    assert(v@.subrange(0, v@.len() as int) =~= v@);
    while b > 0 && char_is_whitespace(v[b - 1])
        invariant
            b <= v@.len(),
            trim_end(v@) == trim_end(v@.subrange(0, b as int)),
        decreases b,
    {
        assert(v@.subrange(0, b as int).drop_last() =~= v@.subrange(0, b - 1));
        b = b - 1;
    }
    Some(string_from(&v, 0, b))
}

} // verus!
