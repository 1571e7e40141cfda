use flt::pixel::{pixels_from_bgra, pixels_from_rgba, to_color, Pixel, Rgb};
use flt::terminal::{
    crop, half_block_frame, label_cell, pack_half_blocks, to_grid, CellWrite, Terminal, TerminalCell,
};

fn px(r: u8, g: u8, b: u8, a: u8) -> Pixel {
    Pixel { r, g, b, a }
}

fn rgb(r: u8, g: u8, b: u8) -> Rgb {
    Rgb { r, g, b }
}

fn black() -> Rgb {
    rgb(0, 0, 0)
}

#[test]
fn pixel_zero_is_transparent_black() {
    assert_eq!(Pixel::zero(), px(0, 0, 0, 0));
}

#[test]
fn is_lit_needs_alpha_and_every_channel() {
    assert!(px(1, 1, 1, 1).is_lit());
    assert!(!px(1, 1, 1, 0).is_lit());
    assert!(!px(0, 9, 9, 255).is_lit());
}

#[test]
fn to_color_drops_alpha() {
    assert_eq!(to_color(&px(1, 2, 3, 4)), rgb(1, 2, 3));
}

#[test]
fn bgra_bytes_become_rgba_pixels() {
    let pixels = pixels_from_bgra(&vec![1, 2, 3, 4, 5, 6, 7, 8]);
    assert_eq!(pixels, vec![px(3, 2, 1, 4), px(7, 6, 5, 8)]);
}

#[test]
fn rgba_bytes_become_pixels() {
    let pixels = pixels_from_rgba(&vec![1, 2, 3, 4]);
    assert_eq!(pixels, vec![px(1, 2, 3, 4)]);
}

#[test]
fn to_grid_cuts_rows() {
    let pixels: Vec<Pixel> = (0..6u8).map(|i| px(i, 0, 0, 0)).collect();
    let grid = to_grid(&pixels, 3, 2);
    assert_eq!(grid.len(), 2);
    assert_eq!(grid[1][0], px(3, 0, 0, 0));
    assert_eq!(grid[1][2], px(5, 0, 0, 0));
}

#[test]
fn crop_reads_fill_outside_the_picture() {
    let grid = vec![vec![px(9, 9, 9, 9), px(8, 8, 8, 8)]];
    let fill = px(0, 0, 0, 255);
    let view = crop(&grid, (-1, 0), 3, 2, fill);
    assert_eq!(view, vec![vec![fill, px(9, 9, 9, 9), px(8, 8, 8, 8)], vec![fill, fill, fill]]);
}

#[test]
fn odd_height_is_padded_with_a_black_row() {
    let view = vec![vec![px(1, 2, 3, 255)], vec![px(4, 5, 6, 255)], vec![px(7, 8, 9, 255)]];
    let lines = pack_half_blocks(&view, 1);
    assert_eq!(lines.len(), 2);
    assert_eq!(lines[0][0], TerminalCell { top: rgb(1, 2, 3), bottom: rgb(4, 5, 6) });
    assert_eq!(lines[1][0], TerminalCell { top: rgb(7, 8, 9), bottom: black() });
}

#[test]
fn first_frame_paints_every_cell() {
    let terminal = Terminal::new();
    let cell = TerminalCell { top: black(), bottom: black() };
    let lines = vec![vec![cell, cell]];
    let writes = terminal.diff(&lines);
    assert_eq!(
        writes,
        vec![CellWrite { column: 0, row: 0, cell }, CellWrite { column: 1, row: 0, cell }]
    );
}

#[test]
fn diff_writes_exactly_the_changed_cells() {
    let mut terminal = Terminal::new();
    let a = TerminalCell { top: black(), bottom: black() };
    let b = TerminalCell { top: rgb(255, 0, 0), bottom: black() };
    terminal.commit(vec![vec![a, a, a], vec![a, a, a]]);
    let next = vec![vec![a, b, a], vec![a, a, b]];
    let writes = terminal.diff(&next);
    assert_eq!(
        writes,
        vec![CellWrite { column: 1, row: 0, cell: b }, CellWrite { column: 2, row: 1, cell: b }]
    );
}

#[test]
fn identical_frames_write_nothing() {
    let mut terminal = Terminal::new();
    let a = TerminalCell { top: rgb(1, 1, 1), bottom: black() };
    terminal.commit(vec![vec![a, a]]);
    assert!(terminal.diff(&vec![vec![a, a]]).is_empty());
}

#[test]
fn size_change_repaints_every_cell() {
    let mut terminal = Terminal::new();
    let a = TerminalCell { top: black(), bottom: black() };
    terminal.commit(vec![vec![a, a]]);
    let writes = terminal.diff(&vec![vec![a, a], vec![a, a]]);
    assert_eq!(writes.len(), 4);
    let writes = terminal.diff(&vec![vec![a, a, a]]);
    assert_eq!(writes.len(), 3);
}

#[test]
fn mark_dirty_forces_a_full_repaint() {
    let mut terminal = Terminal::new();
    let a = TerminalCell { top: black(), bottom: black() };
    terminal.commit(vec![vec![a]]);
    terminal.mark_dirty();
    assert_eq!(terminal.diff(&vec![vec![a]]).len(), 1);
}

#[test]
fn half_block_frame_of_all_zero_buffer_is_black() {
    let pixels = vec![Pixel::zero(); 80 * 48];
    let grid = to_grid(&pixels, 80, 48);
    let lines = half_block_frame(&grid, (0, 0), 80, 48);
    assert_eq!(lines.len(), 24);
    assert!(lines.iter().all(|l| l.len() == 80));
    assert!(lines.iter().flatten().all(|c| *c == TerminalCell { top: black(), bottom: black() }));
}

#[test]
fn half_block_frame_follows_the_offset() {
    let grid = vec![vec![px(1, 0, 0, 255)], vec![px(2, 0, 0, 255)], vec![px(3, 0, 0, 255)]];
    let lines = half_block_frame(&grid, (0, 1), 1, 3);
    assert_eq!(lines[0][0], TerminalCell { top: rgb(2, 0, 0), bottom: rgb(3, 0, 0) });
    assert_eq!(lines[1][0], TerminalCell { top: black(), bottom: black() });
}

#[test]
fn labels_land_in_the_cell_of_their_pixel() {
    let grid = vec![vec![Pixel::zero(); 4]; 4];
    assert_eq!(label_cell(&grid, (0, 0), 4, 4, 2, 3), Some((2, 1)));
    assert_eq!(label_cell(&grid, (1, 2), 4, 4, 2, 3), Some((1, 0)));
    assert_eq!(label_cell(&grid, (0, 0), 4, 4, 4, 0), None);
    assert_eq!(label_cell(&grid, (3, 0), 4, 4, 2, 0), None);
}
