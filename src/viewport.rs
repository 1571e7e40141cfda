use vstd::prelude::*;
use crate::transform::{clamp_i64, clamp_to_i64};

verus! {

/// Phases of a pointer event sent to the engine.
#[derive(Clone, Copy, PartialEq, Eq, Debug, Structural)]
pub enum FlutterPointerPhase {
    Up,
    Down,
    Hover,
}

/// Whether a pointer event carries a scroll.
#[derive(Clone, Copy, PartialEq, Eq, Debug, Structural)]
pub enum FlutterPointerSignalKind {
    NoSignal,
    Scroll,
}

/// The mouse buttons the engine knows.
#[derive(Clone, Copy, PartialEq, Eq, Debug, Structural)]
pub enum FlutterPointerMouseButton {
    Left,
    Right,
    Middle,
}

/// Kinds of key event sent to the engine.
#[derive(Clone, Copy, PartialEq, Eq, Debug, Structural)]
pub enum KeyEventType {
    Up,
    Down,
    Repeat,
}

/// What the mouse did, as the terminal reports it.
#[derive(Clone, Copy, PartialEq, Eq, Debug, Structural)]
pub enum MouseEventKind {
    Down(FlutterPointerMouseButton),
    Up(FlutterPointerMouseButton),
    Drag(FlutterPointerMouseButton),
    Moved,
    ScrollDown,
    ScrollUp,
}

/// A key, as the terminal reports it: a character, or another key.
#[derive(Clone, Copy, PartialEq, Eq, Debug, Structural)]
pub enum KeyCode {
    Char(char),
    Other,
}

/// A terminal input event. `control` is set where the control modifier,
/// and no other, was held. Mouse positions and sizes are in cells until
/// `CellGeometry::normalize` turns them into pixels.
#[derive(Clone, Copy, PartialEq, Eq, Debug, Structural)]
pub enum TerminalEvent {
    Key { code: KeyCode, control: bool },
    Mouse { kind: MouseEventKind, column: u64, row: u64, control: bool },
    Resize { columns: u64, rows: u64 },
    FocusGained,
    FocusLost,
    Paste,
}

/// Terminal rows kept for the log window below the picture.
pub const LOGGING_WINDOW_HEIGHT: u64 = 4;

/// How many pixels a terminal cell stands for: `pixels_x / cells_x` across
/// and `pixels_y / cells_y` down.
#[derive(Clone, Copy, PartialEq, Eq, Debug, Structural)]
pub struct CellGeometry {
    pub pixels_x: u32,
    pub cells_x: u32,
    pub pixels_y: u32,
    pub cells_y: u32,
}

/// `v * pixels / cells`, rounded half up, and held below `u64::MAX`.
pub open spec fn scale_coord(v: int, pixels: int, cells: int) -> int {
    let r = (2 * v * pixels + cells) / (2 * cells);
    if r > u64::MAX {
        u64::MAX as int
    } else {
        r
    }
}

impl CellGeometry {
    pub open spec fn wf(&self) -> bool {
        self.cells_x > 0 && self.cells_y > 0
    }

    /// The half-block renderer's geometry: a cell is one pixel wide and two
    /// pixels tall.
    pub fn half_block() -> (g: CellGeometry)
        ensures
            g == (CellGeometry { pixels_x: 1, cells_x: 1, pixels_y: 2, cells_y: 1 }),
    {
        CellGeometry { pixels_x: 1, cells_x: 1, pixels_y: 2, cells_y: 1 }
    }

    /// The geometry of a terminal that reports `width` by `height` pixels
    /// over `columns` by `rows` cells; where any of them is zero, ten by
    /// twenty pixels a cell.
    pub fn from_window_size(width: u32, height: u32, columns: u32, rows: u32) -> (g: CellGeometry)
        ensures
            g.wf(),
            width > 0 && height > 0 && columns > 0 && rows > 0 ==> g == (CellGeometry {
                pixels_x: width,
                cells_x: columns,
                pixels_y: height,
                cells_y: rows,
            }),
            !(width > 0 && height > 0 && columns > 0 && rows > 0) ==> g == (CellGeometry {
                pixels_x: 10,
                cells_x: 1,
                pixels_y: 20,
                cells_y: 1,
            }),
    {
        if width > 0 && height > 0 && columns > 0 && rows > 0 {
            CellGeometry { pixels_x: width, cells_x: columns, pixels_y: height, cells_y: rows }
        } else {
            CellGeometry { pixels_x: 10, cells_x: 1, pixels_y: 20, cells_y: 1 }
        }
    }

    pub fn scale_x(&self, v: u64) -> (p: u64)
        requires
            self.wf(),
        ensures
            p == scale_coord(v as int, self.pixels_x as int, self.cells_x as int),
    {
        scale(v, self.pixels_x, self.cells_x)
    }

    pub fn scale_y(&self, v: u64) -> (p: u64)
        requires
            self.wf(),
        ensures
            p == scale_coord(v as int, self.pixels_y as int, self.cells_y as int),
    {
        scale(v, self.pixels_y, self.cells_y)
    }

    /// The picture's size in pixels for a terminal of `columns` by `rows`
    /// cells, without the rows of the log window.
    pub fn pixel_size(&self, columns: u64, rows: u64) -> (size: (u64, u64))
        requires
            self.wf(),
        ensures
            size.0 == scale_coord(columns as int, self.pixels_x as int, self.cells_x as int),
            size.1 == scale_coord(picture_rows(rows) as int, self.pixels_y as int, self.cells_y as int),
    {
        let picture = if rows > LOGGING_WINDOW_HEIGHT {
            rows - LOGGING_WINDOW_HEIGHT
        } else {
            0
        };
        (self.scale_x(columns), self.scale_y(picture))
    }

    /// The event with its positions and sizes turned from cells into
    /// pixels; a resize leaves out the rows of the log window.
    pub fn normalize(&self, event: TerminalEvent) -> (e: TerminalEvent)
        requires
            self.wf(),
        ensures
            e == normalized(*self, event),
    {
        match event {
            TerminalEvent::Resize { columns, rows } => {
                let size = self.pixel_size(columns, rows);
                TerminalEvent::Resize { columns: size.0, rows: size.1 }
            },
            TerminalEvent::Mouse { kind, column, row, control } => {
                TerminalEvent::Mouse { kind, column: self.scale_x(column), row: self.scale_y(row), control }
            },
            other => other,
        }
    }
}

/// The rows of a terminal of `rows` rows that show the picture.
pub open spec fn picture_rows(rows: u64) -> u64 {
    if rows > LOGGING_WINDOW_HEIGHT {
        (rows - LOGGING_WINDOW_HEIGHT) as u64
    } else {
        0
    }
}

pub open spec fn normalized(g: CellGeometry, event: TerminalEvent) -> TerminalEvent {
    match event {
        TerminalEvent::Resize { columns, rows } => TerminalEvent::Resize {
            columns: scale_coord(columns as int, g.pixels_x as int, g.cells_x as int) as u64,
            rows: scale_coord(picture_rows(rows) as int, g.pixels_y as int, g.cells_y as int) as u64,
        },
        TerminalEvent::Mouse { kind, column, row, control } => TerminalEvent::Mouse {
            kind,
            column: scale_coord(column as int, g.pixels_x as int, g.cells_x as int) as u64,
            row: scale_coord(row as int, g.pixels_y as int, g.cells_y as int) as u64,
            control,
        },
        other => other,
    }
}

fn scale(v: u64, pixels: u32, cells: u32) -> (p: u64)
    requires
        cells > 0,
    ensures
        p == scale_coord(v as int, pixels as int, cells as int),
{
    assert((v as int) * (pixels as int) <= 0x1_0000_0000_0000_0000_0000_0000) by (nonlinear_arith)
        requires
            0 <= v <= u64::MAX,
            0 <= pixels <= u32::MAX,
    ;
    let num: u128 = 2 * ((v as u128) * (pixels as u128)) + cells as u128;
    assert(num == 2 * v * pixels + cells) by (nonlinear_arith)
        requires
            num == 2 * ((v as int) * (pixels as int)) + cells,
    ;
    let den: u128 = 2 * (cells as u128);
    let q = num / den;
    if q > u64::MAX as u128 {
        u64::MAX
    } else {
        q as u64
    }
}

/// The pixels a scroll of one notch moves; the terminal does not say how
/// far the wheel turned.
pub const SCROLL_DELTA: i64 = 10;

/// Zoom and scale move in steps of a factor of eleven tenths; zoom moves at
/// most this many steps either way, so that the window metrics stay sane.
pub const MAX_ZOOM_STEPS: i32 = 12;

pub open spec fn pow(b: nat, e: nat) -> nat
    decreases e,
{
    if e == 0 {
        1
    } else {
        b * pow(b, (e - 1) as nat)
    }
}

/// `n / m`, rounded half up.
pub open spec fn round_div(n: nat, m: nat) -> nat {
    (2 * n + m) / (2 * m)
}

/// `d` zoomed by `k` steps: times (11/10)^k, rounded, held below `u64::MAX`.
pub open spec fn zoomed(d: u64, k: int) -> u64 {
    let r = if k >= 0 {
        round_div((d * pow(11, k as nat)) as nat, pow(10, k as nat))
    } else {
        round_div((d * pow(10, (-k) as nat)) as nat, pow(11, (-k) as nat))
    };
    if r > u64::MAX {
        u64::MAX
    } else {
        r as u64
    }
}

proof fn lemma_pow_positive(b: nat, e: nat)
    requires
        b >= 1,
    ensures
        pow(b, e) >= 1,
    decreases e,
{
    if e > 0 {
        lemma_pow_positive(b, (e - 1) as nat);
        assert(b * pow(b, (e - 1) as nat) >= 1) by (nonlinear_arith)
            requires
                b >= 1,
                pow(b, (e - 1) as nat) >= 1,
        ;
    }
}

proof fn lemma_pow_monotone(b: nat, i: nat, j: nat)
    requires
        b >= 1,
        i <= j,
    ensures
        pow(b, i) <= pow(b, j),
    decreases j,
{
    if i < j {
        lemma_pow_monotone(b, i, (j - 1) as nat);
        lemma_pow_positive(b, (j - 1) as nat);
        assert(pow(b, (j - 1) as nat) <= b * pow(b, (j - 1) as nat)) by (nonlinear_arith)
            requires
                b >= 1,
                pow(b, (j - 1) as nat) >= 1,
        ;
    }
}

proof fn lemma_pow_bounds(e: nat)
    requires
        e <= 12,
    ensures
        1 <= pow(10, e) <= pow(11, e) <= 3138428376721,
    decreases e,
{
    reveal_with_fuel(pow, 13);
    assert(pow(11, 12) == 3138428376721);
    lemma_pow_monotone(11, e, 12);
    lemma_pow_positive(10, e);
    if e > 0 {
        lemma_pow_bounds((e - 1) as nat);
        assert(10 * pow(10, (e - 1) as nat) <= 11 * pow(11, (e - 1) as nat)) by (nonlinear_arith)
            requires
                pow(10, (e - 1) as nat) <= pow(11, (e - 1) as nat),
        ;
    }
}

/// Eleven and ten to the power `e`.
fn powers(e: u32) -> (p: (u128, u128))
    requires
        e <= 12,
    ensures
        p.0 == pow(11, e as nat),
        p.1 == pow(10, e as nat),
        1 <= p.1 <= p.0 <= 3138428376721,
{
    let mut p11: u128 = 1;
    let mut p10: u128 = 1;
    let mut i: u32 = 0;
    while i < e
        invariant
            i <= e <= 12,
            p11 == pow(11, i as nat),
            p10 == pow(10, i as nat),
        decreases e - i,
    {
        proof {
            lemma_pow_bounds(i as nat);
        }
        p11 = p11 * 11;
        p10 = p10 * 10;
        i += 1;
    }
    proof {
        lemma_pow_bounds(e as nat);
    }
    (p11, p10)
}

/// `d` zoomed by `k` steps.
pub fn zoom_dimension(d: u64, k: i32) -> (r: u64)
    requires
        -MAX_ZOOM_STEPS <= k <= MAX_ZOOM_STEPS,
    ensures
        r == zoomed(d, k as int),
{
    let e: u32 = if k >= 0 {
        k as u32
    } else {
        (-k) as u32
    };
    let (p11, p10) = powers(e);
    let (num, den) = if k >= 0 {
        (p11, p10)
    } else {
        (p10, p11)
    };
    assert((d as int) * (num as int) <= 0x1_0000_0000_0000_0000_0000_0000_0000) by (nonlinear_arith)
        requires
            0 <= d <= u64::MAX,
            0 <= num <= 3138428376721,
    ;
    let n: u128 = (d as u128) * num;
    let r: u128 = (2 * n + den) / (2 * den);
    if r > u64::MAX as u128 {
        u64::MAX
    } else {
        r as u64
    }
}

/// What the engine is asked to lay out on: `width` by `height` pixels, at
/// a pixel ratio of the terminal's base ratio times (11/10) to the power
/// `pixel_ratio_steps`.
#[derive(Clone, Copy, PartialEq, Eq, Debug, Structural)]
pub struct WindowMetrics {
    pub width: u64,
    pub height: u64,
    pub pixel_ratio_steps: i64,
}

/// What handling an input asks of the rest of the program, in order.
#[derive(Clone, Copy, PartialEq, Eq, Debug, Structural)]
pub enum EngineAction {
    /// Send a pointer event to the engine.
    Pointer {
        phase: FlutterPointerPhase,
        x: i64,
        y: i64,
        signal: FlutterPointerSignalKind,
        scroll_delta: i64,
        button: Option<FlutterPointerMouseButton>,
    },
    /// Send a key event to the engine.
    Key { kind: KeyEventType, character: char },
    /// Send new window metrics to the engine.
    WindowMetrics(WindowMetrics),
    /// Ask the engine for a new frame.
    ScheduleFrame,
    /// Turn the engine's semantics updates on or off.
    UpdateSemantics(bool),
    /// Forget the labels drawn over the picture.
    ClearLabels,
    /// Paint the next frame in full.
    MarkDirty,
    /// Show or hide the help screen.
    ToggleHelp,
    /// Leave the event loop.
    Quit,
}

/// Pan, zoom and scale of the picture, and the switches that input sets.
#[derive(Clone, Copy, Debug)]
pub struct Viewport {
    /// The picture's size in pixels, before zoom.
    pub dimensions: (u64, u64),
    pub zoom_steps: i32,
    pub scale_steps: i32,
    /// Where the picture's top left corner is shown from, in pixels.
    pub window_offset: (i64, i64),
    /// The offset when the current drag began.
    pub prev_window_offset: (i64, i64),
    /// Where the current drag began.
    pub mouse_down_pos: (i64, i64),
    pub show_semantics: bool,
    pub should_run: bool,
}

/// `steps` moved by `delta`, held within the range of `i32`.
pub open spec fn bump_scale(steps: i32, delta: int) -> i32 {
    let s = steps + delta;
    if s > i32::MAX {
        i32::MAX
    } else if s < i32::MIN {
        i32::MIN
    } else {
        s as i32
    }
}

/// `steps` moved by `delta`, held within the zoom range.
pub open spec fn bump(steps: i32, delta: int) -> i32 {
    let s = steps + delta;
    if s > MAX_ZOOM_STEPS {
        MAX_ZOOM_STEPS
    } else if s < -MAX_ZOOM_STEPS {
        (-MAX_ZOOM_STEPS) as i32
    } else {
        s as i32
    }
}

/// The offset after dragging from `anchor` to `pos`, starting at `prev`:
/// the picture follows the mouse.
pub open spec fn pan_offset(prev: (i64, i64), anchor: (i64, i64), pos: (i64, i64)) -> (i64, i64) {
    (clamp_i64(prev.0 - (pos.0 - anchor.0)), clamp_i64(prev.1 - (pos.1 - anchor.1)))
}

pub open spec fn metrics_of(v: Viewport) -> WindowMetrics {
    WindowMetrics {
        width: zoomed(v.dimensions.0, v.zoom_steps as int),
        height: zoomed(v.dimensions.1, v.zoom_steps as int),
        pixel_ratio_steps: (v.zoom_steps + v.scale_steps) as i64,
    }
}

/// `v` with zoom, scale and pan back at rest, over a picture of `size`.
pub open spec fn reset_state(v: Viewport, size: (u64, u64)) -> Viewport {
    Viewport {
        dimensions: size,
        zoom_steps: 0,
        scale_steps: 0,
        window_offset: (0, 0),
        prev_window_offset: (0, 0),
        mouse_down_pos: (0, 0),
        ..v
    }
}

/// What a change of size, zoom or scale asks for.
pub open spec fn relayout(v: Viewport) -> Seq<EngineAction> {
    seq![EngineAction::WindowMetrics(metrics_of(v)), EngineAction::ScheduleFrame]
}

pub open spec fn pointer(
    phase: FlutterPointerPhase,
    x: i64,
    y: i64,
    signal: FlutterPointerSignalKind,
    scroll_delta: i64,
    button: Option<FlutterPointerMouseButton>,
) -> EngineAction {
    EngineAction::Pointer { phase, x, y, signal, scroll_delta, button }
}

/// The state after an event held with the control key, and what it asks.
pub open spec fn control_step(v: Viewport, e: TerminalEvent) -> (Viewport, Seq<EngineAction>) {
    match e {
        TerminalEvent::Key { code: KeyCode::Char('c'), .. } => (Viewport { should_run: false, ..v }, seq![EngineAction::Quit]),
        TerminalEvent::Key { code: KeyCode::Char('z'), .. } => {
            let show = !v.show_semantics;
            let w = Viewport { show_semantics: show, ..v };
            if show {
                (w, seq![EngineAction::UpdateSemantics(true)])
            } else {
                (w, seq![EngineAction::ClearLabels, EngineAction::MarkDirty, EngineAction::UpdateSemantics(false)])
            }
        },
        TerminalEvent::Key { code: KeyCode::Char('r'), .. } => {
            let w = reset_state(v, v.dimensions);
            (w, seq![EngineAction::MarkDirty].add(relayout(w)))
        },
        TerminalEvent::Key { code: KeyCode::Char('5'), .. } => {
            let w = Viewport { scale_steps: bump_scale(v.scale_steps, 1), ..v };
            (w, relayout(w))
        },
        TerminalEvent::Key { code: KeyCode::Char('4'), .. } => {
            let w = Viewport { scale_steps: bump_scale(v.scale_steps, -1), ..v };
            (w, relayout(w))
        },
        TerminalEvent::Mouse { kind: MouseEventKind::Down(FlutterPointerMouseButton::Left), column, row, .. } => (
            Viewport {
                mouse_down_pos: (clamp_i64(column as int), clamp_i64(row as int)),
                prev_window_offset: v.window_offset,
                ..v
            },
            Seq::empty(),
        ),
        TerminalEvent::Mouse { kind: MouseEventKind::Drag(FlutterPointerMouseButton::Left), column, row, .. } => {
            let pos = (clamp_i64(column as int), clamp_i64(row as int));
            (
                Viewport { window_offset: pan_offset(v.prev_window_offset, v.mouse_down_pos, pos), ..v },
                seq![EngineAction::ScheduleFrame],
            )
        },
        TerminalEvent::Mouse { kind: MouseEventKind::ScrollUp, .. } => {
            let w = Viewport { zoom_steps: bump(v.zoom_steps, 1), ..v };
            (w, relayout(w))
        },
        TerminalEvent::Mouse { kind: MouseEventKind::ScrollDown, .. } => {
            let w = Viewport { zoom_steps: bump(v.zoom_steps, -1), ..v };
            (w, relayout(w))
        },
        _ => (v, Seq::empty()),
    }
}

/// The state after an event without the control key, and what it asks:
/// mouse events go to the engine, moved by the pan offset.
pub open spec fn plain_step(v: Viewport, e: TerminalEvent) -> (Viewport, Seq<EngineAction>) {
    match e {
        TerminalEvent::Key { code: KeyCode::Char('?'), .. } => (v, seq![EngineAction::ToggleHelp, EngineAction::MarkDirty]),
        TerminalEvent::Key { code: KeyCode::Char(c), .. } => (
            v,
            seq![
                EngineAction::Key { kind: KeyEventType::Down, character: c },
                EngineAction::Key { kind: KeyEventType::Up, character: c },
            ],
        ),
        TerminalEvent::Mouse { kind, column, row, .. } => {
            let x = clamp_i64(column + v.window_offset.0);
            let y = clamp_i64(row + v.window_offset.1);
            let none = FlutterPointerSignalKind::NoSignal;
            let scroll = FlutterPointerSignalKind::Scroll;
            let action = match kind {
                MouseEventKind::Down(b) => pointer(FlutterPointerPhase::Down, x, y, none, 0, Some(b)),
                MouseEventKind::Up(b) => pointer(FlutterPointerPhase::Up, x, y, none, 0, Some(b)),
                MouseEventKind::Drag(_) => pointer(FlutterPointerPhase::Hover, x, y, none, 0, None),
                MouseEventKind::Moved => pointer(FlutterPointerPhase::Hover, x, y, none, 0, None),
                MouseEventKind::ScrollUp => pointer(FlutterPointerPhase::Up, x, y, scroll, (-SCROLL_DELTA) as i64, None),
                MouseEventKind::ScrollDown => pointer(FlutterPointerPhase::Down, x, y, scroll, SCROLL_DELTA, None),
            };
            (v, seq![action])
        },
        _ => (v, Seq::empty()),
    }
}

/// The state after any input event, and what it asks.
pub open spec fn step(v: Viewport, e: TerminalEvent) -> (Viewport, Seq<EngineAction>) {
    match e {
        TerminalEvent::Key { control: true, .. } => control_step(v, e),
        TerminalEvent::Mouse { control: true, .. } => control_step(v, e),
        TerminalEvent::Resize { columns, rows } => {
            let w = Viewport { dimensions: (columns, rows), ..v };
            (w, seq![EngineAction::MarkDirty].add(relayout(w)))
        },
        _ => plain_step(v, e),
    }
}

fn bump_scale_steps(steps: i32, delta: i32) -> (r: i32)
    requires
        -1 <= delta <= 1,
    ensures
        r == bump_scale(steps, delta as int),
{
    let s = steps as i64 + delta as i64;
    if s > i32::MAX as i64 {
        i32::MAX
    } else if s < i32::MIN as i64 {
        i32::MIN
    } else {
        s as i32
    }
}

fn bump_steps(steps: i32, delta: i32) -> (r: i32)
    requires
        -MAX_ZOOM_STEPS <= steps <= MAX_ZOOM_STEPS,
        -1 <= delta <= 1,
    ensures
        r == bump(steps, delta as int),
{
    let s = steps + delta;
    if s > MAX_ZOOM_STEPS {
        MAX_ZOOM_STEPS
    } else if s < -MAX_ZOOM_STEPS {
        -MAX_ZOOM_STEPS
    } else {
        s
    }
}

impl Viewport {
    /// Zoom stays within its range.
    pub open spec fn wf(&self) -> bool {
        -MAX_ZOOM_STEPS <= self.zoom_steps <= MAX_ZOOM_STEPS
    }

    /// The state at start-up, over a picture of `size` pixels.
    pub fn new(size: (u64, u64)) -> (v: Viewport)
        ensures
            v.wf(),
            v.dimensions == size,
            v.zoom_steps == 0,
            v.scale_steps == 0,
            v.window_offset == (0i64, 0i64),
            v.prev_window_offset == (0i64, 0i64),
            v.mouse_down_pos == (0i64, 0i64),
            !v.show_semantics,
            v.should_run,
    {
        Viewport {
            dimensions: size,
            zoom_steps: 0,
            scale_steps: 0,
            window_offset: (0, 0),
            prev_window_offset: (0, 0),
            mouse_down_pos: (0, 0),
            show_semantics: false,
            should_run: true,
        }
    }

    /// The window metrics the engine should lay out on.
    pub fn window_metrics(&self) -> (m: WindowMetrics)
        requires
            self.wf(),
        ensures
            m == metrics_of(*self),
    {
        WindowMetrics {
            width: zoom_dimension(self.dimensions.0, self.zoom_steps),
            height: zoom_dimension(self.dimensions.1, self.zoom_steps),
            pixel_ratio_steps: self.zoom_steps as i64 + self.scale_steps as i64,
        }
    }

    /// Puts zoom, scale and pan back at rest over a picture of `size`, and
    /// asks for a full repaint at the new metrics.
    pub fn reset_viewport(&mut self, size: (u64, u64)) -> (actions: Vec<EngineAction>)
        ensures
            *final(self) == reset_state(*old(self), size),
            final(self).wf(),
            actions@ == seq![EngineAction::MarkDirty].add(relayout(*final(self))),
    {
        self.dimensions = size;
        self.zoom_steps = 0;
        self.scale_steps = 0;
        self.window_offset = (0, 0);
        self.prev_window_offset = (0, 0);
        self.mouse_down_pos = (0, 0);
        let mut actions: Vec<EngineAction> = Vec::new();
        actions.push(EngineAction::MarkDirty);
        actions.push(EngineAction::WindowMetrics(self.window_metrics()));
        actions.push(EngineAction::ScheduleFrame);
        assert(actions@ =~= seq![EngineAction::MarkDirty].add(relayout(*self)));
        actions
    }

    fn relayout(&self, actions: &mut Vec<EngineAction>)
        requires
            self.wf(),
        ensures
            final(actions)@ == old(actions)@.add(relayout(*self)),
    {
        let ghost start = actions@;
        actions.push(EngineAction::WindowMetrics(self.window_metrics()));
        actions.push(EngineAction::ScheduleFrame);
        assert(actions@ =~= start.add(relayout(*self)));
    }

    fn handle_control(&mut self, event: TerminalEvent) -> (actions: Vec<EngineAction>)
        requires
            old(self).wf(),
        ensures
            final(self).wf(),
            (*final(self), actions@) == control_step(*old(self), event),
    {
        let mut actions: Vec<EngineAction> = Vec::new();
        match event {
            TerminalEvent::Key { code: KeyCode::Char(c), .. } => {
                if c == 'c' {
                    self.should_run = false;
                    actions.push(EngineAction::Quit);
                } else if c == 'z' {
                    self.show_semantics = !self.show_semantics;
                    if !self.show_semantics {
                        actions.push(EngineAction::ClearLabels);
                        actions.push(EngineAction::MarkDirty);
                    }
                    actions.push(EngineAction::UpdateSemantics(self.show_semantics));
                } else if c == 'r' {
                    let size = self.dimensions;
                    actions = self.reset_viewport(size);
                } else if c == '5' {
                    self.scale_steps = bump_scale_steps(self.scale_steps, 1);
                    self.relayout(&mut actions);
                } else if c == '4' {
                    self.scale_steps = bump_scale_steps(self.scale_steps, -1);
                    self.relayout(&mut actions);
                }
            },
            TerminalEvent::Mouse { kind, column, row, .. } => {
                match kind {
                    MouseEventKind::Down(FlutterPointerMouseButton::Left) => {
                        self.mouse_down_pos = (clamp_to_i64(column as i128), clamp_to_i64(row as i128));
                        self.prev_window_offset = self.window_offset;
                    },
                    MouseEventKind::Drag(FlutterPointerMouseButton::Left) => {
                        let px = clamp_to_i64(column as i128);
                        let py = clamp_to_i64(row as i128);
                        self.window_offset = (
                            clamp_to_i64(
                                self.prev_window_offset.0 as i128 - (px as i128 - self.mouse_down_pos.0 as i128),
                            ),
                            clamp_to_i64(
                                self.prev_window_offset.1 as i128 - (py as i128 - self.mouse_down_pos.1 as i128),
                            ),
                        );
                        actions.push(EngineAction::ScheduleFrame);
                    },
                    MouseEventKind::ScrollUp => {
                        self.zoom_steps = bump_steps(self.zoom_steps, 1);
                        self.relayout(&mut actions);
                    },
                    MouseEventKind::ScrollDown => {
                        self.zoom_steps = bump_steps(self.zoom_steps, -1);
                        self.relayout(&mut actions);
                    },
                    _ => {},
                }
            },
            _ => {},
        }
        assert(actions@ =~= control_step(*old(self), event).1);
        actions
    }

    fn handle_plain(&self, event: TerminalEvent) -> (actions: Vec<EngineAction>)
        ensures
            actions@ == plain_step(*self, event).1,
            plain_step(*self, event).0 == *self,
    {
        let mut actions: Vec<EngineAction> = Vec::new();
        match event {
            TerminalEvent::Key { code: KeyCode::Char(c), .. } => {
                if c == '?' {
                    actions.push(EngineAction::ToggleHelp);
                    actions.push(EngineAction::MarkDirty);
                } else {
                    actions.push(EngineAction::Key { kind: KeyEventType::Down, character: c });
                    actions.push(EngineAction::Key { kind: KeyEventType::Up, character: c });
                }
            },
            TerminalEvent::Mouse { kind, column, row, .. } => {
                let x = clamp_to_i64(column as i128 + self.window_offset.0 as i128);
                let y = clamp_to_i64(row as i128 + self.window_offset.1 as i128);
                let none = FlutterPointerSignalKind::NoSignal;
                let scroll = FlutterPointerSignalKind::Scroll;
                let action = match kind {
                    MouseEventKind::Down(b) => EngineAction::Pointer {
                        phase: FlutterPointerPhase::Down,
                        x,
                        y,
                        signal: none,
                        scroll_delta: 0,
                        button: Some(b),
                    },
                    MouseEventKind::Up(b) => EngineAction::Pointer {
                        phase: FlutterPointerPhase::Up,
                        x,
                        y,
                        signal: none,
                        scroll_delta: 0,
                        button: Some(b),
                    },
                    MouseEventKind::Drag(_) | MouseEventKind::Moved => EngineAction::Pointer {
                        phase: FlutterPointerPhase::Hover,
                        x,
                        y,
                        signal: none,
                        scroll_delta: 0,
                        button: None,
                    },
                    MouseEventKind::ScrollUp => EngineAction::Pointer {
                        phase: FlutterPointerPhase::Up,
                        x,
                        y,
                        signal: scroll,
                        scroll_delta: -SCROLL_DELTA,
                        button: None,
                    },
                    MouseEventKind::ScrollDown => EngineAction::Pointer {
                        phase: FlutterPointerPhase::Down,
                        x,
                        y,
                        signal: scroll,
                        scroll_delta: SCROLL_DELTA,
                        button: None,
                    },
                };
                actions.push(action);
            },
            _ => {},
        }
        assert(actions@ =~= plain_step(*self, event).1);
        actions
    }

    /// Handles one input event: held with the control key it changes the
    /// viewport or a switch; a resize changes the picture's size; anything
    /// else goes on to the engine. Returns what the rest of the program
    /// must do, in order.
    pub fn handle_terminal_event(&mut self, event: TerminalEvent) -> (actions: Vec<EngineAction>)
        requires
            old(self).wf(),
        ensures
            final(self).wf(),
            (*final(self), actions@) == step(*old(self), event),
    {
        match event {
            TerminalEvent::Key { control: true, .. } => self.handle_control(event),
            TerminalEvent::Mouse { control: true, .. } => self.handle_control(event),
            TerminalEvent::Resize { columns, rows } => {
                self.dimensions = (columns, rows);
                let mut actions: Vec<EngineAction> = Vec::new();
                actions.push(EngineAction::MarkDirty);
                self.relayout(&mut actions);
                assert(actions@ =~= step(*old(self), event).1);
                actions
            },
            _ => self.handle_plain(event),
        }
    }
}

/// Resetting puts zoom and scale at one and the pan at the origin, and asks
/// for window metrics at the picture's own size whose pixel ratio is the
/// terminal's base ratio, unchanged. The control-r key does the same over
/// the current size.
pub proof fn lemma_reset_viewport(v: Viewport, size: (u64, u64))
    ensures
        ({
            let w = reset_state(v, size);
            &&& w.zoom_steps == 0
            &&& w.scale_steps == 0
            &&& w.window_offset == (0i64, 0i64)
            &&& metrics_of(w) == (WindowMetrics { width: size.0, height: size.1, pixel_ratio_steps: 0 })
        }),
        v.wf() ==> ({
            let (w, actions) = step(v, TerminalEvent::Key { code: KeyCode::Char('r'), control: true });
            &&& w == reset_state(v, v.dimensions)
            &&& actions.contains(
                EngineAction::WindowMetrics(
                    WindowMetrics { width: v.dimensions.0, height: v.dimensions.1, pixel_ratio_steps: 0 },
                ),
            )
        }),
{
    lemma_zoom_zero(size.0);
    lemma_zoom_zero(size.1);
    lemma_zoom_zero(v.dimensions.0);
    lemma_zoom_zero(v.dimensions.1);
    let (w, actions) = step(v, TerminalEvent::Key { code: KeyCode::Char('r'), control: true });
    assert(actions[1] == EngineAction::WindowMetrics(metrics_of(w)));
}

proof fn lemma_zoom_zero(d: u64)
    ensures
        zoomed(d, 0) == d,
{
    assert(pow(11, 0) == 1);
    assert(pow(10, 0) == 1);
    assert((d * pow(11, 0)) as nat == d as nat);
    assert((2 * (d as nat) + 1) / 2 == d) by (nonlinear_arith);
    assert(round_div(d as nat, 1) == d);
}

/// Pressing the mouse at `anchor` and dragging it to `pos`, both with the
/// control key, moves the pan offset from `o` to `o - (pos - anchor)`,
/// exactly where that fits an `i64`; dragging back to the anchor gives `o`
/// again.
pub proof fn lemma_pan_math(v: Viewport, anchor: (u64, u64), pos: (u64, u64))
    requires
        anchor.0 <= i64::MAX,
        anchor.1 <= i64::MAX,
        pos.0 <= i64::MAX,
        pos.1 <= i64::MAX,
        i64::MIN <= v.window_offset.0 - (pos.0 - anchor.0) <= i64::MAX,
        i64::MIN <= v.window_offset.1 - (pos.1 - anchor.1) <= i64::MAX,
    ensures
        ({
            let pressed = step(
                v,
                TerminalEvent::Mouse {
                    kind: MouseEventKind::Down(FlutterPointerMouseButton::Left),
                    column: anchor.0,
                    row: anchor.1,
                    control: true,
                },
            ).0;
            let dragged = step(
                pressed,
                TerminalEvent::Mouse {
                    kind: MouseEventKind::Drag(FlutterPointerMouseButton::Left),
                    column: pos.0,
                    row: pos.1,
                    control: true,
                },
            ).0;
            let back = step(
                pressed,
                TerminalEvent::Mouse {
                    kind: MouseEventKind::Drag(FlutterPointerMouseButton::Left),
                    column: anchor.0,
                    row: anchor.1,
                    control: true,
                },
            ).0;
            &&& dragged.window_offset.0 == v.window_offset.0 - (pos.0 - anchor.0)
            &&& dragged.window_offset.1 == v.window_offset.1 - (pos.1 - anchor.1)
            &&& back.window_offset == v.window_offset
        }),
{
}

/// A drag with the control key keeps the drag's anchor and its starting
/// offset, and zoom, scale and size; it sends nothing to the engine, only
/// asks for a frame. So after a press at `anchor` from offset `o`, any
/// number of drags leaves the offset at `o - (pos - anchor)` for the last
/// position `pos`, exactly where that fits an `i64`, and at `o` once the
/// mouse is back at the anchor.
pub proof fn lemma_drag_step(v: Viewport, column: u64, row: u64)
    ensures
        ({
            let (w, actions) = step(
                v,
                TerminalEvent::Mouse {
                    kind: MouseEventKind::Drag(FlutterPointerMouseButton::Left),
                    column,
                    row,
                    control: true,
                },
            );
            &&& w.mouse_down_pos == v.mouse_down_pos
            &&& w.prev_window_offset == v.prev_window_offset
            &&& w.zoom_steps == v.zoom_steps
            &&& w.scale_steps == v.scale_steps
            &&& w.dimensions == v.dimensions
            &&& actions == seq![EngineAction::ScheduleFrame]
            &&& (column <= i64::MAX && row <= i64::MAX && i64::MIN <= v.prev_window_offset.0 - (column
                - v.mouse_down_pos.0) <= i64::MAX && i64::MIN <= v.prev_window_offset.1 - (row
                - v.mouse_down_pos.1) <= i64::MAX) ==> w.window_offset == (
                (v.prev_window_offset.0 - (column - v.mouse_down_pos.0)) as i64,
                (v.prev_window_offset.1 - (row - v.mouse_down_pos.1)) as i64,
            )
            &&& (column == v.mouse_down_pos.0 && row == v.mouse_down_pos.1) ==> w.window_offset
                == v.prev_window_offset
        }),
{
}

} // verus!
