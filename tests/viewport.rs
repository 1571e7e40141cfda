use flt::viewport::{
    zoom_dimension, CellGeometry, EngineAction, FlutterPointerMouseButton, FlutterPointerPhase,
    FlutterPointerSignalKind, KeyCode, KeyEventType, MouseEventKind, TerminalEvent, Viewport, WindowMetrics,
};

fn control_mouse(kind: MouseEventKind, column: u64, row: u64) -> TerminalEvent {
    TerminalEvent::Mouse { kind, column, row, control: true }
}

fn control_key(c: char) -> TerminalEvent {
    TerminalEvent::Key { code: KeyCode::Char(c), control: true }
}

#[test]
fn scroll_up_becomes_an_upward_scroll_pointer_event() {
    let mut viewport = Viewport::new((80, 48));
    let geometry = CellGeometry::half_block();
    let event = geometry.normalize(TerminalEvent::Mouse {
        kind: MouseEventKind::ScrollUp,
        column: 10,
        row: 5,
        control: false,
    });
    let actions = viewport.handle_terminal_event(event);
    assert_eq!(
        actions,
        vec![EngineAction::Pointer {
            phase: FlutterPointerPhase::Up,
            x: 10,
            y: 10,
            signal: FlutterPointerSignalKind::Scroll,
            scroll_delta: -10,
            button: None,
        }]
    );
}

#[test]
fn scroll_down_and_clicks_are_forwarded_with_the_pan_offset() {
    let mut viewport = Viewport::new((80, 48));
    viewport.window_offset = (3, -2);
    let actions = viewport.handle_terminal_event(TerminalEvent::Mouse {
        kind: MouseEventKind::Down(FlutterPointerMouseButton::Right),
        column: 5,
        row: 6,
        control: false,
    });
    assert_eq!(
        actions,
        vec![EngineAction::Pointer {
            phase: FlutterPointerPhase::Down,
            x: 8,
            y: 4,
            signal: FlutterPointerSignalKind::NoSignal,
            scroll_delta: 0,
            button: Some(FlutterPointerMouseButton::Right),
        }]
    );
    let actions = viewport.handle_terminal_event(TerminalEvent::Mouse {
        kind: MouseEventKind::ScrollDown,
        column: 0,
        row: 0,
        control: false,
    });
    assert_eq!(
        actions,
        vec![EngineAction::Pointer {
            phase: FlutterPointerPhase::Down,
            x: 3,
            y: -2,
            signal: FlutterPointerSignalKind::Scroll,
            scroll_delta: 10,
            button: None,
        }]
    );
}

#[test]
fn drags_and_moves_become_hover_without_buttons() {
    let mut viewport = Viewport::new((80, 48));
    for kind in [MouseEventKind::Drag(FlutterPointerMouseButton::Left), MouseEventKind::Moved] {
        let actions = viewport.handle_terminal_event(TerminalEvent::Mouse { kind, column: 1, row: 2, control: false });
        assert_eq!(
            actions,
            vec![EngineAction::Pointer {
                phase: FlutterPointerPhase::Hover,
                x: 1,
                y: 2,
                signal: FlutterPointerSignalKind::NoSignal,
                scroll_delta: 0,
                button: None,
            }]
        );
    }
}

#[test]
fn pan_follows_the_mouse() {
    let mut viewport = Viewport::new((80, 48));
    viewport.window_offset = (5, 7);
    viewport.handle_terminal_event(control_mouse(MouseEventKind::Down(FlutterPointerMouseButton::Left), 10, 10));
    let actions = viewport.handle_terminal_event(control_mouse(MouseEventKind::Drag(FlutterPointerMouseButton::Left), 14, 8));
    assert_eq!(viewport.window_offset, (5 - 4, 7 + 2));
    assert_eq!(actions, vec![EngineAction::ScheduleFrame]);
    viewport.handle_terminal_event(control_mouse(MouseEventKind::Drag(FlutterPointerMouseButton::Left), 10, 10));
    assert_eq!(viewport.window_offset, (5, 7));
}

#[test]
fn reset_restores_identity_and_base_pixel_ratio() {
    let mut viewport = Viewport::new((80, 48));
    viewport.handle_terminal_event(control_mouse(MouseEventKind::ScrollUp, 0, 0));
    viewport.handle_terminal_event(control_key('5'));
    viewport.window_offset = (9, 9);
    assert_eq!(viewport.zoom_steps, 1);
    assert_eq!(viewport.scale_steps, 1);
    let actions = viewport.handle_terminal_event(control_key('r'));
    assert_eq!(viewport.zoom_steps, 0);
    assert_eq!(viewport.scale_steps, 0);
    assert_eq!(viewport.window_offset, (0, 0));
    assert_eq!(
        actions,
        vec![
            EngineAction::MarkDirty,
            EngineAction::WindowMetrics(WindowMetrics { width: 80, height: 48, pixel_ratio_steps: 0 }),
            EngineAction::ScheduleFrame,
        ]
    );
}

#[test]
fn zoom_scales_the_window_metrics() {
    let mut viewport = Viewport::new((100, 50));
    let actions = viewport.handle_terminal_event(control_mouse(MouseEventKind::ScrollUp, 0, 0));
    assert_eq!(
        actions,
        vec![
            EngineAction::WindowMetrics(WindowMetrics { width: 110, height: 55, pixel_ratio_steps: 1 }),
            EngineAction::ScheduleFrame,
        ]
    );
    viewport.handle_terminal_event(control_mouse(MouseEventKind::ScrollDown, 0, 0));
    viewport.handle_terminal_event(control_mouse(MouseEventKind::ScrollDown, 0, 0));
    assert_eq!(viewport.window_metrics(), WindowMetrics { width: 91, height: 45, pixel_ratio_steps: -1 });
}

#[test]
fn zoom_stays_within_its_range() {
    let mut viewport = Viewport::new((100, 50));
    for _ in 0..40 {
        viewport.handle_terminal_event(control_mouse(MouseEventKind::ScrollUp, 0, 0));
    }
    assert_eq!(viewport.zoom_steps, 12);
    assert_eq!(zoom_dimension(100, 12), 314);
    assert_eq!(zoom_dimension(100, -12), 32);
    assert_eq!(zoom_dimension(u64::MAX, 1), u64::MAX);
}

#[test]
fn control_keys_toggle_semantics_and_quit() {
    let mut viewport = Viewport::new((10, 10));
    assert_eq!(viewport.handle_terminal_event(control_key('z')), vec![EngineAction::UpdateSemantics(true)]);
    assert_eq!(
        viewport.handle_terminal_event(control_key('z')),
        vec![EngineAction::ClearLabels, EngineAction::MarkDirty, EngineAction::UpdateSemantics(false)]
    );
    assert_eq!(viewport.handle_terminal_event(control_key('c')), vec![EngineAction::Quit]);
    assert!(!viewport.should_run);
}

#[test]
fn plain_keys_go_to_the_engine_and_question_mark_shows_help() {
    let mut viewport = Viewport::new((10, 10));
    assert_eq!(
        viewport.handle_terminal_event(TerminalEvent::Key { code: KeyCode::Char('a'), control: false }),
        vec![
            EngineAction::Key { kind: KeyEventType::Down, character: 'a' },
            EngineAction::Key { kind: KeyEventType::Up, character: 'a' },
        ]
    );
    assert_eq!(
        viewport.handle_terminal_event(TerminalEvent::Key { code: KeyCode::Char('?'), control: false }),
        vec![EngineAction::ToggleHelp, EngineAction::MarkDirty]
    );
    assert!(viewport.handle_terminal_event(TerminalEvent::FocusGained).is_empty());
}

#[test]
fn resize_updates_dimensions_and_repaints() {
    let mut viewport = Viewport::new((10, 10));
    let geometry = CellGeometry::half_block();
    let event = geometry.normalize(TerminalEvent::Resize { columns: 80, rows: 28 });
    assert_eq!(event, TerminalEvent::Resize { columns: 80, rows: 48 });
    let actions = viewport.handle_terminal_event(event);
    assert_eq!(viewport.dimensions, (80, 48));
    assert_eq!(
        actions,
        vec![
            EngineAction::MarkDirty,
            EngineAction::WindowMetrics(WindowMetrics { width: 80, height: 48, pixel_ratio_steps: 0 }),
            EngineAction::ScheduleFrame,
        ]
    );
}

#[test]
fn geometry_scales_cells_to_pixels() {
    let geometry = CellGeometry::from_window_size(800, 600, 80, 24);
    assert_eq!(geometry.pixel_size(80, 24), (800, 500));
    assert_eq!(geometry.scale_x(3), 30);
    assert_eq!(geometry.scale_y(3), 75);
    let fallback = CellGeometry::from_window_size(0, 600, 80, 24);
    assert_eq!(fallback, CellGeometry { pixels_x: 10, cells_x: 1, pixels_y: 20, cells_y: 1 });
    assert_eq!(CellGeometry::half_block().pixel_size(10, 2), (10, 0));
}

#[test]
fn scale_keeps_changing_past_twelve_steps() {
    let mut viewport = Viewport::new((100, 50));
    for _ in 0..20 {
        viewport.handle_terminal_event(control_key('5'));
    }
    assert_eq!(viewport.scale_steps, 20);
    assert_eq!(viewport.window_metrics().pixel_ratio_steps, 20);
    for _ in 0..45 {
        viewport.handle_terminal_event(control_key('4'));
    }
    assert_eq!(viewport.scale_steps, -25);
    viewport.scale_steps = i32::MAX;
    viewport.zoom_steps = 12;
    viewport.handle_terminal_event(control_key('5'));
    assert_eq!(viewport.scale_steps, i32::MAX);
    assert_eq!(viewport.window_metrics().pixel_ratio_steps, i32::MAX as i64 + 12);
}

#[test]
fn any_number_of_drags_measures_from_the_press() {
    let mut viewport = Viewport::new((80, 48));
    viewport.window_offset = (2, 3);
    viewport.handle_terminal_event(control_mouse(MouseEventKind::Down(FlutterPointerMouseButton::Left), 20, 20));
    for (c, r) in [(25, 21), (30, 10), (5, 40)] {
        viewport.handle_terminal_event(control_mouse(MouseEventKind::Drag(FlutterPointerMouseButton::Left), c, r));
        assert_eq!(viewport.window_offset, (2 - (c as i64 - 20), 3 - (r as i64 - 20)));
    }
    viewport.handle_terminal_event(control_mouse(MouseEventKind::Drag(FlutterPointerMouseButton::Left), 20, 20));
    assert_eq!(viewport.window_offset, (2, 3));
}
