use selection_translate::geometry::{ScreenPoint, ScreenRect};
use selection_translate::mouse::{
    selection_rect, should_forward_hook_message, MouseState, MouseTrigger, HOVER_DELAY,
    SELECTION_DELAY, WM_LBUTTONDOWN, WM_LBUTTONUP, WM_MBUTTONDOWN, WM_MOUSEMOVE, WM_RBUTTONDOWN,
    WM_XBUTTONDOWN,
};

const MILLI: u64 = 1_000_000;
const START: u64 = 10_000_000_000;

#[test]
fn hook_forwards_every_button_down_used_for_outside_dismissal() {
    for message in [
        WM_MOUSEMOVE,
        WM_LBUTTONDOWN,
        WM_RBUTTONDOWN,
        WM_MBUTTONDOWN,
        WM_XBUTTONDOWN,
    ] {
        assert!(should_forward_hook_message(message));
    }
}

#[test]
fn hover_dwell_is_half_a_second() {
    assert_eq!(HOVER_DELAY, 500 * MILLI);
}

#[test]
fn release_waits_eighty_ms_and_expands_double_click() {
    let start = START;
    let mut mouse = MouseState::new();
    let p = ScreenPoint::new(100, 200);
    mouse.on_left_down(p, 7, 70, start);
    mouse.on_left_up(p, 7, 70, start);
    assert!(mouse.take_due(start + 79 * MILLI).is_empty());
    assert_eq!(
        mouse.take_due(start + SELECTION_DELAY),
        vec![MouseTrigger::Selection {
            pointer: p,
            process_id: 7,
            source_root_window: 70,
            rect: None
        }]
    );
    mouse.on_left_down(p, 7, 70, start + 100 * MILLI);
    mouse.on_left_up(p, 7, 70, start + 100 * MILLI);
    assert_eq!(
        mouse.take_due(start + 180 * MILLI),
        vec![MouseTrigger::Selection {
            pointer: p,
            process_id: 7,
            source_root_window: 70,
            rect: Some(ScreenRect::new(92, 192, 108, 208))
        }]
    );
}

#[test]
fn drag_rect_is_normalized_and_hover_uses_a_dwell_after_movement() {
    let start = START;
    let mut mouse = MouseState::new();
    mouse.on_left_down(ScreenPoint::new(30, 40), 1, 1, start);
    mouse.on_left_up(ScreenPoint::new(10, 20), 1, 1, start);
    assert_eq!(
        mouse.take_due(start + SELECTION_DELAY),
        vec![MouseTrigger::Selection {
            pointer: ScreenPoint::new(10, 20),
            process_id: 1,
            source_root_window: 1,
            rect: Some(ScreenRect::new(10, 20, 30, 40))
        }]
    );
    mouse.set_hover_enabled(true, start);
    mouse.on_move(ScreenPoint::new(0, 0), 2, 2, start);
    assert_eq!(mouse.hover_deadline(), Some(start + HOVER_DELAY));
    assert!(mouse
        .take_due(start + HOVER_DELAY - 1 * MILLI)
        .is_empty());
    assert!(mouse.hover_deadline().is_some());
    assert_eq!(
        mouse.take_due(start + HOVER_DELAY),
        vec![MouseTrigger::Hover {
            pointer: ScreenPoint::new(0, 0),
            process_id: 2,
            source_root_window: 2
        }]
    );
}

#[test]
fn foreground_change_cancels_the_pending_hover_candidate() {
    let start = START;
    let mut mouse = MouseState::new();
    mouse.set_hover_enabled(true, start);
    mouse.on_move(ScreenPoint::new(12, 18), 2, 20, start);
    let generation = mouse.hover_generation();

    mouse.cancel_hover_candidate();

    assert!(mouse.hover_deadline().is_none());
    assert_ne!(mouse.hover_generation(), generation);
    assert!(mouse.take_due(start + HOVER_DELAY).is_empty());
}

#[test]
fn drag_keeps_the_button_down_process_when_mouse_up_crosses_windows() {
    let start = START;
    let mut mouse = MouseState::new();
    mouse.on_left_down(ScreenPoint::new(30, 40), 101, 101, start);
    mouse.on_left_up(ScreenPoint::new(10, 20), 202, 202, start);

    assert_eq!(
        mouse.take_due(start + SELECTION_DELAY),
        vec![MouseTrigger::Selection {
            pointer: ScreenPoint::new(10, 20),
            process_id: 101,
            source_root_window: 101,
            rect: Some(ScreenRect::new(10, 20, 30, 40)),
        }]
    );
}

#[test]
fn drag_uses_mouse_up_process_when_button_down_process_is_unknown() {
    let start = START;
    let mut mouse = MouseState::new();
    mouse.on_left_down(ScreenPoint::new(30, 40), 0, 0, start);
    mouse.on_left_up(ScreenPoint::new(10, 20), 202, 202, start);

    assert_eq!(
        mouse.take_due(start + SELECTION_DELAY),
        vec![MouseTrigger::Selection {
            pointer: ScreenPoint::new(10, 20),
            process_id: 202,
            source_root_window: 202,
            rect: Some(ScreenRect::new(10, 20, 30, 40)),
        }]
    );
}

#[test]
fn hover_starts_disabled_and_button_down_cancels_pending_hover() {
    let start = START;
    let mut mouse = MouseState::new();
    mouse.on_move(ScreenPoint::new(0, 0), 1, 1, start);
    mouse.on_move(ScreenPoint::new(10, 0), 1, 1, start);
    assert!(mouse.hover_deadline().is_none());
    mouse.set_hover_enabled(true, start);
    mouse.on_move(ScreenPoint::new(0, 0), 1, 1, start);
    assert!(mouse.hover_deadline().is_some());
    mouse.on_left_down(ScreenPoint::new(0, 0), 1, 1, start);
    mouse.on_move(
        ScreenPoint::new(20, 0),
        1,
        1,
        start + 10 * MILLI,
    );
    assert!(mouse.hover_deadline().is_none());
    assert!(mouse
        .take_due(start + HOVER_DELAY + 1 * MILLI)
        .is_empty());
}

#[test]
fn accumulated_drift_beyond_threshold_resets_dwell() {
    let start = START;
    let mut mouse = MouseState::new();
    mouse.set_hover_enabled(true, start);

    mouse.on_move(ScreenPoint::new(0, 0), 7, 7, start);
    let moved_at = start + 100 * MILLI;
    // Incremental one-pixel events accumulate against the fixed anchor;
    // the fifth pixel is a significant Euclidean displacement.
    for x in 1..=5 {
        mouse.on_move(
            ScreenPoint::new(x, 0),
            7,
            7,
            moved_at + x as u64 * MILLI,
        );
    }
    let settled_at = moved_at + 5 * MILLI;
    assert!(mouse
        .take_due(settled_at + HOVER_DELAY - 1 * MILLI)
        .is_empty());
    assert_eq!(
        mouse.take_due(settled_at + HOVER_DELAY),
        vec![MouseTrigger::Hover {
            pointer: ScreenPoint::new(5, 0),
            process_id: 7,
            source_root_window: 7
        }]
    );
}

#[test]
fn jitter_within_threshold_does_not_reset_deadline_or_candidate() {
    let start = START;
    let mut mouse = MouseState::new();
    mouse.set_hover_enabled(true, start);
    let points = [
        ScreenPoint::new(100, 100),
        ScreenPoint::new(102, 101),
        ScreenPoint::new(99, 102),
        ScreenPoint::new(101, 99),
    ];
    mouse.on_move(points[0], 9, 9, start);
    let deadline = start + HOVER_DELAY;
    for (index, point) in points.into_iter().skip(1).enumerate() {
        let at = start + index as u64 * 100 * MILLI;
        mouse.on_move(point, 9, 9, at);
        assert!(mouse.take_due(at).is_empty());
    }
    assert_eq!(
        mouse.take_due(deadline),
        vec![MouseTrigger::Hover {
            pointer: points[0],
            process_id: 9,
            source_root_window: 9
        }]
    );
}

#[test]
fn large_move_advances_anchor_and_invalidates_old_deadline() {
    let start = START;
    let mut mouse = MouseState::new();
    mouse.set_hover_enabled(true, start);
    mouse.on_move(ScreenPoint::new(0, 0), 3, 3, start);
    mouse.on_move(
        ScreenPoint::new(20, 0),
        3,
        3,
        start + 100 * MILLI,
    );

    assert!(mouse.take_due(start + HOVER_DELAY).is_empty());
    assert_eq!(
        mouse.take_due(start + 100 * MILLI + HOVER_DELAY),
        vec![MouseTrigger::Hover {
            pointer: ScreenPoint::new(20, 0),
            process_id: 3,
            source_root_window: 3
        }]
    );
}

#[test]
fn process_change_starts_a_new_hover_candidate() {
    let start = START;
    let mut mouse = MouseState::new();
    mouse.set_hover_enabled(true, start);
    mouse.on_move(ScreenPoint::new(50, 50), 10, 10, start);
    let changed_at = start + 100 * MILLI;
    mouse.on_move(ScreenPoint::new(50, 50), 11, 11, changed_at);

    assert!(mouse.take_due(start + HOVER_DELAY).is_empty());
    assert_eq!(
        mouse.take_due(changed_at + HOVER_DELAY),
        vec![MouseTrigger::Hover {
            pointer: ScreenPoint::new(50, 50),
            process_id: 11,
            source_root_window: 11
        }]
    );
}

#[test]
fn significant_move_after_emission_advances_hover_generation() {
    let start = START;
    let mut mouse = MouseState::new();
    mouse.set_hover_enabled(true, start);
    mouse.on_move(ScreenPoint::new(0, 0), 1, 1, start);
    let initial = mouse.hover_generation();
    assert!(matches!(
        mouse.take_due(start + HOVER_DELAY).as_slice(),
        [MouseTrigger::Hover { .. }]
    ));
    mouse.on_move(
        ScreenPoint::new(10, 0),
        1,
        1,
        start + HOVER_DELAY + 1 * MILLI,
    );
    assert_ne!(mouse.hover_generation(), initial);
}

#[test]
fn left_button_after_emission_advances_hover_generation() {
    let start = START;
    let mut mouse = MouseState::new();
    mouse.set_hover_enabled(true, start);
    let point = ScreenPoint::new(20, 20);
    mouse.on_move(point, 1, 1, start);
    assert!(matches!(
        mouse.take_due(start + HOVER_DELAY).as_slice(),
        [MouseTrigger::Hover { .. }]
    ));
    let initial = mouse.hover_generation();
    mouse.on_left_down(point, 1, 1, start + HOVER_DELAY);
    assert_ne!(mouse.hover_generation(), initial);
    assert!(mouse.hover_deadline().is_none());
}

#[test]
fn hook_forwards_the_left_release_and_nothing_unrelated() {
    assert!(should_forward_hook_message(WM_LBUTTONUP));
    assert!(!should_forward_hook_message(0x0205));
    assert!(!should_forward_hook_message(0x020a));
}

#[test]
fn selection_rect_is_the_same_from_either_corner() {
    let a = ScreenPoint::new(i32::MIN, 5);
    let b = ScreenPoint::new(7, -3);
    assert_eq!(selection_rect(a, b), ScreenRect::new(i32::MIN, -3, 7, 5));
    assert_eq!(selection_rect(a, b), selection_rect(b, a));
}

#[test]
fn releases_come_due_in_the_order_they_were_made() {
    let mut mouse = MouseState::new();
    for x in [100, 200, 300] {
        mouse.on_left_down(ScreenPoint::new(x, 0), 1, 1, START);
        mouse.on_left_up(ScreenPoint::new(x + 50, 9), 1, 1, START);
    }
    let mut seen = Vec::new();
    let mut now = START;
    for _ in 0..5 {
        now += SELECTION_DELAY;
        for event in mouse.take_due(now) {
            if let MouseTrigger::Selection { pointer, .. } = event {
                seen.push(pointer.x);
            }
        }
    }
    assert_eq!(seen, vec![150, 250, 350]);
    assert!(mouse.selection_deadline().is_none());
}

#[test]
fn disabled_hover_ignores_movement() {
    let mut mouse = MouseState::new();
    mouse.set_hover_enabled(true, START);
    mouse.on_move(ScreenPoint::new(1, 1), 1, 1, START);
    mouse.set_hover_enabled(false, START);
    assert!(!mouse.hover_enabled());
    assert!(mouse.take_due(START + 2 * HOVER_DELAY).is_empty());
    mouse.on_move(ScreenPoint::new(90, 90), 1, 1, START + 2 * HOVER_DELAY);
    assert!(mouse.hover_deadline().is_none());
}

#[test]
fn waiting_releases_come_one_per_expiry() {
    let mut mouse = MouseState::new();
    mouse.on_left_up(ScreenPoint::new(1, 1), 1, 1, START);
    mouse.on_left_up(ScreenPoint::new(90, 90), 2, 2, START + MILLI);
    let t = START + 500 * MILLI;
    let selection = |x: i32, id: u32| MouseTrigger::Selection {
        pointer: ScreenPoint::new(x, x),
        process_id: id,
        source_root_window: id as isize,
        rect: None,
    };
    assert_eq!(mouse.take_due(t), vec![selection(1, 1)]);
    assert_eq!(mouse.selection_deadline(), Some(t + SELECTION_DELAY));
    assert!(mouse.take_due(t + SELECTION_DELAY - MILLI).is_empty());
    assert_eq!(mouse.take_due(t + SELECTION_DELAY), vec![selection(90, 2)]);
    assert_eq!(mouse.selection_deadline(), None);
}

#[test]
fn movement_beyond_the_threshold_restarts_the_dwell() {
    let mut mouse = MouseState::new();
    mouse.set_hover_enabled(true, START);
    mouse.on_move(ScreenPoint::new(0, 0), 1, 1, START);
    let generation = mouse.hover_generation();
    mouse.on_move(ScreenPoint::new(0, 4), 1, 1, START + MILLI);
    assert_eq!(mouse.hover_generation(), generation);
    assert_eq!(mouse.hover_deadline(), Some(START + HOVER_DELAY));
    mouse.on_move(ScreenPoint::new(3, 3), 1, 1, START + MILLI);
    assert_eq!(mouse.hover_generation(), generation + 1);
    assert_eq!(mouse.hover_deadline(), Some(START + MILLI + HOVER_DELAY));
    assert_eq!(
        mouse.take_due(START + MILLI + HOVER_DELAY),
        vec![MouseTrigger::Hover {
            pointer: ScreenPoint::new(3, 3),
            process_id: 1,
            source_root_window: 1,
        }]
    );
}
