use vstd::prelude::*;
use crate::pixel::{Pixel, Rgb, zero_pixel, color_of};

verus! {

/// The pixel of a grid at column `x` and row `y`; a position outside the
/// grid reads as `fill`.
pub open spec fn grid_sample(grid: Seq<Vec<Pixel>>, x: int, y: int, fill: Pixel) -> Pixel {
    if 0 <= y < grid.len() && 0 <= x < grid[y]@.len() {
        grid[y]@[x]
    } else {
        fill
    }
}

/// Every row of the grid holds `width` pixels.
pub open spec fn rows_have_width<T>(grid: Seq<Vec<T>>, width: nat) -> bool {
    forall|y: int| 0 <= y < grid.len() ==> #[trigger] grid[y]@.len() == width
}

/// Cuts a row-major buffer of `width` by `height` pixels into rows.
pub fn to_grid(pixels: &Vec<Pixel>, width: usize, height: usize) -> (grid: Vec<Vec<Pixel>>)
    requires
        pixels@.len() == width * height,
    ensures
        grid@.len() == height,
        rows_have_width(grid@, width as nat),
        forall|y: int, x: int|
            0 <= y < height && 0 <= x < width ==> #[trigger] grid@[y]@[x] == pixels@[y * width + x],
{
    let total = pixels.len();
    let mut grid: Vec<Vec<Pixel>> = Vec::new();
    let mut k: usize = 0;
    let mut y: usize = 0;
    while y < height
        invariant
            pixels@.len() == width * height,
            total == pixels@.len(),
            y <= height,
            k == y * width,
            grid@.len() == y,
            rows_have_width(grid@, width as nat),
            forall|j: int, x: int|
                0 <= j < y && 0 <= x < width ==> #[trigger] grid@[j]@[x] == pixels@[j * width + x],
        decreases height - y,
    {
        assert((y + 1) * width <= width * height) by (nonlinear_arith)
            requires
                y < height,
        ;
        assert((y + 1) * width == y * width + width) by (nonlinear_arith);
        let mut row: Vec<Pixel> = Vec::new();
        let mut x: usize = 0;
        while x < width
            invariant
                pixels@.len() == width * height,
                total == pixels@.len(),
                y < height,
                (y + 1) * width <= width * height,
                (y + 1) * width == y * width + width,
                k == y * width + x,
                x <= width,
                row@.len() == x,
                forall|i: int| 0 <= i < x ==> #[trigger] row@[i] == pixels@[y * width + i],
            decreases width - x,
        {
            row.push(pixels[k]);
            k += 1;
            x += 1;
        }
        grid.push(row);
        y += 1;
    }
    grid
}

/// The part of `grid` that a view of `view_width` by `view_height` pixels,
/// placed at `offset` over it, shows: positions outside the grid show
/// `fill`.
pub fn crop(grid: &Vec<Vec<Pixel>>, offset: (i64, i64), view_width: usize, view_height: usize, fill: Pixel) -> (view: Vec<Vec<Pixel>>)
    ensures
        view@.len() == view_height,
        rows_have_width(view@, view_width as nat),
        forall|y: int, x: int|
            0 <= y < view_height && 0 <= x < view_width ==> #[trigger] view@[y]@[x] == grid_sample(
                grid@,
                offset.0 + x,
                offset.1 + y,
                fill,
            ),
{
    let mut view: Vec<Vec<Pixel>> = Vec::new();
    let mut y: usize = 0;
    while y < view_height
        invariant
            y <= view_height,
            view@.len() == y,
            rows_have_width(view@, view_width as nat),
            forall|j: int, x: int|
                0 <= j < y && 0 <= x < view_width ==> #[trigger] view@[j]@[x] == grid_sample(
                    grid@,
                    offset.0 + x,
                    offset.1 + j,
                    fill,
                ),
        decreases view_height - y,
    {
        let sy: i128 = offset.1 as i128 + y as i128;
        let mut row: Vec<Pixel> = Vec::new();
        let mut x: usize = 0;
        while x < view_width
            invariant
                y < view_height,
                sy == offset.1 + y,
                x <= view_width,
                row@.len() == x,
                forall|i: int|
                    0 <= i < x ==> #[trigger] row@[i] == grid_sample(grid@, offset.0 + i, offset.1 + y, fill),
            decreases view_width - x,
        {
            let sx: i128 = offset.0 as i128 + x as i128;
            let p = if 0 <= sy && sy < grid.len() as i128 && 0 <= sx && sx < grid[sy as usize].len() as i128 {
                grid[sy as usize][sx as usize]
            } else {
                fill
            };
            row.push(p);
            x += 1;
        }
        view.push(row);
        y += 1;
    }
    view
}

/// One character cell: the upper half shows `top`, the lower half `bottom`.
#[derive(Clone, Copy, PartialEq, Eq, Debug, Structural)]
pub struct TerminalCell {
    pub top: Rgb,
    pub bottom: Rgb,
}

/// The pixel of `view` at row `y` and column `x`, where a row past the end
/// stands for the padding row of zero pixels.
pub open spec fn padded(view: Seq<Vec<Pixel>>, y: int, x: int) -> Pixel {
    if y < view.len() {
        view[y]@[x]
    } else {
        zero_pixel()
    }
}

/// The cell that packs rows `2 * row` and `2 * row + 1` at column `x`.
pub open spec fn packed_cell(view: Seq<Vec<Pixel>>, row: int, x: int) -> TerminalCell {
    TerminalCell {
        top: color_of(padded(view, 2 * row, x)),
        bottom: color_of(padded(view, 2 * row + 1, x)),
    }
}

/// Packs every two rows of pixels into one row of half-block cells. A view
/// of odd height is packed as if a row of zero pixels followed it.
pub fn pack_half_blocks(view: &Vec<Vec<Pixel>>, width: usize) -> (lines: Vec<Vec<TerminalCell>>)
    requires
        rows_have_width(view@, width as nat),
    ensures
        lines@.len() == (view@.len() + 1) / 2,
        rows_have_width(lines@, width as nat),
        forall|y: int, x: int|
            0 <= y < lines@.len() && 0 <= x < width ==> #[trigger] lines@[y]@[x] == packed_cell(
                view@,
                y,
                x,
            ),
{
    let height = view.len();
    let rows = height / 2 + height % 2;
    let mut lines: Vec<Vec<TerminalCell>> = Vec::new();
    let mut y: usize = 0;
    while y < rows
        invariant
            height == view@.len(),
            rows == (view@.len() + 1) / 2,
            rows_have_width(view@, width as nat),
            y <= rows,
            lines@.len() == y,
            rows_have_width(lines@, width as nat),
            forall|j: int, x: int|
                0 <= j < y && 0 <= x < width ==> #[trigger] lines@[j]@[x] == packed_cell(view@, j, x),
        decreases rows - y,
    {
        let top_row = 2 * y;
        let mut line: Vec<TerminalCell> = Vec::new();
        let mut x: usize = 0;
        while x < width
            invariant
                height == view@.len(),
                rows == (view@.len() + 1) / 2,
                rows_have_width(view@, width as nat),
                y < rows,
                top_row == 2 * y,
                x <= width,
                line@.len() == x,
                forall|i: int| 0 <= i < x ==> #[trigger] line@[i] == packed_cell(view@, y as int, i),
            decreases width - x,
        {
            let top = view[top_row][x];
            let bottom = if top_row + 1 < height {
                view[top_row + 1][x]
            } else {
                Pixel::zero()
            };
            line.push(
                TerminalCell {
                    top: Rgb { r: top.r, g: top.g, b: top.b },
                    bottom: Rgb { r: bottom.r, g: bottom.g, b: bottom.b },
                },
            );
            x += 1;
        }
        lines.push(line);
        y += 1;
    }
    lines
}

/// In a view of odd height `h`, the last row of cells, row `h / 2`, packs
/// the view's last row of pixels over a row of zero pixels: an odd height
/// asks nothing more of the packer.
pub proof fn lemma_odd_height_pads_with_zero(view: Seq<Vec<Pixel>>, x: int)
    requires
        view.len() % 2 == 1,
    ensures
        packed_cell(view, (view.len() / 2) as int, x).bottom == color_of(zero_pixel()),
        packed_cell(view, (view.len() / 2) as int, x).top == color_of(view[view.len() - 1]@[x]),
{
}

/// A cell to paint: `cell` goes at `column`, `row` of the terminal.
#[derive(Clone, Copy, PartialEq, Eq, Debug, Structural)]
pub struct CellWrite {
    pub column: usize,
    pub row: usize,
    pub cell: TerminalCell,
}

/// Two frames of cells have the same number of rows, and each row the same
/// number of cells.
pub open spec fn same_shape(prev: Seq<Vec<TerminalCell>>, cur: Seq<Vec<TerminalCell>>) -> bool {
    &&& prev.len() == cur.len()
    &&& forall|y: int| 0 <= y < prev.len() ==> #[trigger] prev[y]@.len() == cur[y]@.len()
}

/// The cell at row `y`, column `x` of `cur` must be painted over `prev`:
/// the frames differ in shape, or the cell's colours differ.
pub open spec fn cell_changed(prev: Seq<Vec<TerminalCell>>, cur: Seq<Vec<TerminalCell>>, y: int, x: int) -> bool {
    !same_shape(prev, cur) || prev[y]@[x] != cur[y]@[x]
}

/// The writes for the first `n` cells of row `y`, left to right.
pub open spec fn row_writes(prev: Seq<Vec<TerminalCell>>, cur: Seq<Vec<TerminalCell>>, y: int, n: int) -> Seq<CellWrite>
    decreases n,
{
    if n <= 0 {
        Seq::empty()
    } else {
        let before = row_writes(prev, cur, y, n - 1);
        if cell_changed(prev, cur, y, n - 1) {
            before.push(CellWrite { column: (n - 1) as usize, row: y as usize, cell: cur[y]@[n - 1] })
        } else {
            before
        }
    }
}

/// The writes for the first `m` rows, top to bottom.
pub open spec fn frame_writes(prev: Seq<Vec<TerminalCell>>, cur: Seq<Vec<TerminalCell>>, m: int) -> Seq<CellWrite>
    decreases m,
{
    if m <= 0 {
        Seq::empty()
    } else {
        frame_writes(prev, cur, m - 1) + row_writes(prev, cur, m - 1, cur[m - 1]@.len() as int)
    }
}

/// The writes that turn a terminal showing `prev` into one showing `cur`.
pub open spec fn diff_writes(prev: Seq<Vec<TerminalCell>>, cur: Seq<Vec<TerminalCell>>) -> Seq<CellWrite> {
    frame_writes(prev, cur, cur.len() as int)
}

/// Some write in `writes` paints the cell at row `y`, column `x`.
pub open spec fn written(writes: Seq<CellWrite>, y: int, x: int) -> bool {
    exists|i: int| 0 <= i < writes.len() && writes[i].row == y && writes[i].column == x
}

/// `w` paints a cell of `cur` that changed, with its colours.
pub open spec fn paints_changed_cell(prev: Seq<Vec<TerminalCell>>, cur: Seq<Vec<TerminalCell>>, w: CellWrite) -> bool {
    &&& w.row < cur.len()
    &&& w.column < cur[w.row as int]@.len()
    &&& w.cell == cur[w.row as int]@[w.column as int]
    &&& cell_changed(prev, cur, w.row as int, w.column as int)
}

/// `a` comes before `b` in row-major order.
pub open spec fn in_order(a: CellWrite, b: CellWrite) -> bool {
    a.row < b.row || (a.row == b.row && a.column < b.column)
}

/// Every cell of `cur` fits a `usize` position.
pub open spec fn positions_fit(cur: Seq<Vec<TerminalCell>>) -> bool {
    &&& cur.len() <= usize::MAX
    &&& forall|y: int| 0 <= y < cur.len() ==> #[trigger] cur[y]@.len() <= usize::MAX
}

proof fn lemma_row_writes(prev: Seq<Vec<TerminalCell>>, cur: Seq<Vec<TerminalCell>>, y: int, n: int)
    requires
        positions_fit(cur),
        0 <= y < cur.len(),
        0 <= n <= cur[y]@.len(),
    ensures
        forall|i: int| 0 <= i < row_writes(prev, cur, y, n).len() ==> {
            let w = #[trigger] row_writes(prev, cur, y, n)[i];
            w.row == y && w.column < n && paints_changed_cell(prev, cur, w)
        },
        forall|x: int| 0 <= x < n && cell_changed(prev, cur, y, x) ==> #[trigger] written(row_writes(prev, cur, y, n), y, x),
        forall|i: int, j: int|
            0 <= i < j < row_writes(prev, cur, y, n).len() ==> #[trigger] row_writes(prev, cur, y, n)[i].column
                < #[trigger] row_writes(prev, cur, y, n)[j].column,
    decreases n,
{
    if n > 0 {
        lemma_row_writes(prev, cur, y, n - 1);
        let before = row_writes(prev, cur, y, n - 1);
        let all = row_writes(prev, cur, y, n);
        assert forall|i: int, j: int| 0 <= i < j < all.len() implies #[trigger] all[i].column < #[trigger] all[j].column by {
            if j < before.len() {
                assert(all[i] == before[i] && all[j] == before[j]);
            } else {
                assert(all[i] == before[i]);
            }
        }
        assert forall|x: int| 0 <= x < n && cell_changed(prev, cur, y, x) implies #[trigger] written(all, y, x) by {
            if x < n - 1 {
                assert(written(before, y, x));
                let i = choose|i: int| 0 <= i < before.len() && before[i].row == y && before[i].column == x;
                assert(all[i] == before[i]);
            } else {
                assert(all[all.len() - 1].column == x);
            }
        }
    }
}

proof fn lemma_frame_writes(prev: Seq<Vec<TerminalCell>>, cur: Seq<Vec<TerminalCell>>, m: int)
    requires
        positions_fit(cur),
        0 <= m <= cur.len(),
    ensures
        forall|i: int| 0 <= i < frame_writes(prev, cur, m).len() ==> {
            let w = #[trigger] frame_writes(prev, cur, m)[i];
            w.row < m && paints_changed_cell(prev, cur, w)
        },
        forall|y: int, x: int|
            0 <= y < m && 0 <= x < cur[y]@.len() && cell_changed(prev, cur, y, x) ==> #[trigger] written(
                frame_writes(prev, cur, m),
                y,
                x,
            ),
        forall|i: int, j: int|
            0 <= i < j < frame_writes(prev, cur, m).len() ==> in_order(
                #[trigger] frame_writes(prev, cur, m)[i],
                #[trigger] frame_writes(prev, cur, m)[j],
            ),
    decreases m,
{
    if m > 0 {
        lemma_frame_writes(prev, cur, m - 1);
        let n = cur[m - 1]@.len() as int;
        lemma_row_writes(prev, cur, m - 1, n);
        let before = frame_writes(prev, cur, m - 1);
        let row = row_writes(prev, cur, m - 1, n);
        let all = frame_writes(prev, cur, m);
        assert(all == before + row);
        assert forall|i: int| 0 <= i < all.len() implies {
            let w = #[trigger] all[i];
            w.row < m && paints_changed_cell(prev, cur, w)
        } by {
            if i >= before.len() {
                assert(all[i] == row[i - before.len()]);
            }
        }
        assert forall|i: int, j: int| 0 <= i < j < all.len() implies in_order(#[trigger] all[i], #[trigger] all[j]) by {
            if j < before.len() {
                assert(all[i] == before[i] && all[j] == before[j]);
            } else if i < before.len() {
                assert(all[i] == before[i]);
                assert(all[j] == row[j - before.len()]);
            } else {
                assert(all[i] == row[i - before.len()]);
                assert(all[j] == row[j - before.len()]);
            }
        }
        assert forall|y: int, x: int|
            0 <= y < m && 0 <= x < cur[y]@.len() && cell_changed(prev, cur, y, x) implies #[trigger] written(all, y, x) by {
            if y < m - 1 {
                assert(written(before, y, x));
                let i = choose|i: int| 0 <= i < before.len() && before[i].row == y && before[i].column == x;
                assert(all[i] == before[i]);
            } else {
                assert(written(row, y, x));
                let i = choose|i: int| 0 <= i < row.len() && row[i].row == y && row[i].column == x;
                assert(all[before.len() + i] == row[i]);
            }
        }
    }
}

/// The diff of two consecutive frames paints exactly the cells whose
/// colours differ, each once, in row-major order; after the shape of the
/// frame changed, it paints every cell, equal or not.
pub proof fn lemma_diff_paints_exactly_changed_cells(prev: Seq<Vec<TerminalCell>>, cur: Seq<Vec<TerminalCell>>)
    requires
        positions_fit(cur),
    ensures
        forall|i: int| 0 <= i < diff_writes(prev, cur).len() ==> paints_changed_cell(prev, cur, #[trigger] diff_writes(prev, cur)[i]),
        forall|y: int, x: int|
            0 <= y < cur.len() && 0 <= x < cur[y]@.len() ==> (#[trigger] written(diff_writes(prev, cur), y, x)
                <==> cell_changed(prev, cur, y, x)),
        same_shape(prev, cur) ==> forall|y: int, x: int|
            0 <= y < cur.len() && 0 <= x < cur[y]@.len() ==> (#[trigger] written(diff_writes(prev, cur), y, x)
                <==> prev[y]@[x] != cur[y]@[x]),
        !same_shape(prev, cur) ==> forall|y: int, x: int|
            0 <= y < cur.len() && 0 <= x < cur[y]@.len() ==> #[trigger] written(diff_writes(prev, cur), y, x),
        forall|i: int, j: int|
            0 <= i < j < diff_writes(prev, cur).len() ==> in_order(
                #[trigger] diff_writes(prev, cur)[i],
                #[trigger] diff_writes(prev, cur)[j],
            ),
{
    lemma_frame_writes(prev, cur, cur.len() as int);
    let w = diff_writes(prev, cur);
    assert forall|y: int, x: int| 0 <= y < cur.len() && 0 <= x < cur[y]@.len() && written(w, y, x) implies cell_changed(prev, cur, y, x) by {
        let i = choose|i: int| 0 <= i < w.len() && w[i].row == y && w[i].column == x;
        assert(paints_changed_cell(prev, cur, w[i]));
    }
}

/// The half-block renderer's memory of what the terminal shows: one row of
/// cells per line, empty when the next frame must be painted in full.
pub struct Terminal {
    lines: Vec<Vec<TerminalCell>>,
}

impl Terminal {
    /// The cells the terminal is known to show.
    pub closed spec fn shown(&self) -> Seq<Vec<TerminalCell>> {
        self.lines@
    }

    /// A renderer that knows nothing of the screen yet.
    pub fn new() -> (t: Terminal)
        ensures
            t.shown().len() == 0,
    {
        Terminal { lines: Vec::new() }
    }

    /// Forgets what the terminal shows, so that the next frame is painted
    /// in full.
    pub fn mark_dirty(&mut self)
        ensures
            final(self).shown().len() == 0,
    {
        self.lines = Vec::new();
    }

    /// The cells of `lines` to paint over what the terminal shows: every
    /// cell when the shape changed, else the cells whose colours differ; in
    /// row-major order.
    pub fn diff(&self, lines: &Vec<Vec<TerminalCell>>) -> (writes: Vec<CellWrite>)
        ensures
            writes@ == diff_writes(self.shown(), lines@),
    {
        let prev = &self.lines;
        let mut same = prev.len() == lines.len();
        let mut k: usize = 0;
        if same {
            while k < prev.len()
                invariant
                    prev@.len() == lines@.len(),
                    k <= prev@.len(),
                    same == (forall|j: int| 0 <= j < k ==> #[trigger] prev@[j]@.len() == lines@[j]@.len()),
                decreases prev@.len() - k,
            {
                if prev[k].len() != lines[k].len() {
                    same = false;
                }
                k += 1;
            }
        }
        assert(same == same_shape(prev@, lines@));
        let mut writes: Vec<CellWrite> = Vec::new();
        let mut y: usize = 0;
        while y < lines.len()
            invariant
                same == same_shape(prev@, lines@),
                prev@ == self.shown(),
                y <= lines@.len(),
                writes@ == frame_writes(prev@, lines@, y as int),
            decreases lines@.len() - y,
        {
            let line = &lines[y];
            let mut x: usize = 0;
            while x < line.len()
                invariant
                    same == same_shape(prev@, lines@),
                    y < lines@.len(),
                    line@ == lines@[y as int]@,
                    x <= line@.len(),
                    writes@ == frame_writes(prev@, lines@, y as int) + row_writes(prev@, lines@, y as int, x as int),
                decreases line@.len() - x,
            {
                let cell = line[x];
                let changed = if same {
                    prev[y][x] != cell
                } else {
                    true
                };
                if changed {
                    writes.push(CellWrite { column: x, row: y, cell });
                }
                proof {
                    let before = frame_writes(prev@, lines@, y as int);
                    if changed {
                        assert(before + row_writes(prev@, lines@, y as int, x + 1) =~= (before + row_writes(
                            prev@,
                            lines@,
                            y as int,
                            x as int,
                        )).push(CellWrite { column: x, row: y, cell }));
                    }
                }
                x += 1;
            }
            y += 1;
        }
        writes
    }

    /// Records that the terminal now shows `lines`.
    pub fn commit(&mut self, lines: Vec<Vec<TerminalCell>>)
        ensures
            final(self).shown() == lines@,
    {
        self.lines = lines;
    }
}

/// The half-block cells of a view of `view_width` by `view_height` pixels
/// placed at `offset` over `grid`: positions outside the grid are zero
/// pixels, and a view of odd height gets a row of zero pixels below it.
pub fn half_block_frame(grid: &Vec<Vec<Pixel>>, offset: (i64, i64), view_width: usize, view_height: usize) -> (lines: Vec<Vec<TerminalCell>>)
    ensures
        lines@.len() == (view_height + 1) / 2,
        rows_have_width(lines@, view_width as nat),
        forall|y: int, x: int|
            0 <= y < lines@.len() && 0 <= x < view_width ==> #[trigger] lines@[y]@[x] == (TerminalCell {
                top: color_of(grid_sample(grid@, offset.0 + x, offset.1 + 2 * y, zero_pixel())),
                bottom: color_of(
                    if 2 * y + 1 < view_height {
                        grid_sample(grid@, offset.0 + x, offset.1 + 2 * y + 1, zero_pixel())
                    } else {
                        zero_pixel()
                    },
                ),
            }),
{
    let view = crop(grid, offset, view_width, view_height, Pixel::zero());
    let lines = pack_half_blocks(&view, view_width);
    assert forall|y: int, x: int| 0 <= y < lines@.len() && 0 <= x < view_width implies #[trigger] lines@[y]@[x] == (TerminalCell {
        top: color_of(grid_sample(grid@, offset.0 + x, offset.1 + 2 * y, zero_pixel())),
        bottom: color_of(
            if 2 * y + 1 < view_height {
                grid_sample(grid@, offset.0 + x, offset.1 + 2 * y + 1, zero_pixel())
            } else {
                zero_pixel()
            },
        ),
    }) by {
        assert(lines@[y]@[x] == packed_cell(view@, y, x));
        assert(view@[2 * y]@[x] == grid_sample(grid@, offset.0 + x, offset.1 + 2 * y, zero_pixel()));
        if 2 * y + 1 < view_height {
            assert(view@[2 * y + 1]@[x] == grid_sample(grid@, offset.0 + x, offset.1 + 2 * y + 1, zero_pixel()));
        }
    }
    lines
}

/// The cell, as (column, row), where a label at pixel (`x`, `y`) of the
/// picture shows, when the view of `view_width` by `view_height` pixels at
/// `offset` shows that pixel of the picture.
pub open spec fn label_cell_of(
    grid: Seq<Vec<Pixel>>,
    offset: (i64, i64),
    view_width: usize,
    view_height: usize,
    x: usize,
    y: usize,
) -> Option<(usize, usize)> {
    let vx = x - offset.0;
    let vy = y - offset.1;
    if y < grid.len() && x < grid[y as int]@.len() && 0 <= vx < view_width && 0 <= vy < view_height {
        Some((vx as usize, (vy / 2) as usize))
    } else {
        None
    }
}

/// Where a label at pixel (`x`, `y`) of the picture shows on the terminal,
/// if it does.
pub fn label_cell(grid: &Vec<Vec<Pixel>>, offset: (i64, i64), view_width: usize, view_height: usize, x: usize, y: usize) -> (cell: Option<(usize, usize)>)
    ensures
        cell == label_cell_of(grid@, offset, view_width, view_height, x, y),
{
    if y >= grid.len() || x >= grid[y].len() {
        return None;
    }
    let vx: i128 = x as i128 - offset.0 as i128;
    let vy: i128 = y as i128 - offset.1 as i128;
    if 0 <= vx && vx < view_width as i128 && 0 <= vy && vy < view_height as i128 {
        Some((vx as usize, (vy / 2) as usize))
    } else {
        None
    }
}

} // verus!
