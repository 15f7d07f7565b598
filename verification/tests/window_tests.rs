use skyplane::window_position::{
    custom_window_restore_step, custom_window_tracked_positions, format_custom_window_position,
    is_custom_window_position_visible, parse_custom_window_position, target_resolution,
    CustomWindowRestoreStep, MonitorArea, WindowPosition, WindowSize,
};

fn test_monitor(x: i32, y: i32, width: u32, height: u32) -> MonitorArea {
    MonitorArea { x, y, width, height }
}

#[test]
fn custom_window_position_allows_second_monitor_coordinates() {
    let monitors = vec![test_monitor(0, 0, 1920, 1080), test_monitor(1920, 0, 1920, 1080)];

    assert!(is_custom_window_position_visible(
        WindowPosition { x: 2200, y: 200 },
        target_resolution(),
        &monitors
    ));
}

#[test]
fn custom_window_position_allows_left_side_monitor_coordinates() {
    let monitors = vec![test_monitor(-1920, 0, 1920, 1080), test_monitor(0, 0, 1920, 1080)];

    assert!(is_custom_window_position_visible(
        WindowPosition { x: -1400, y: 200 },
        target_resolution(),
        &monitors
    ));
}

#[test]
fn custom_window_position_rejects_removed_monitor_coordinates() {
    let monitors = vec![test_monitor(0, 0, 1920, 1080)];

    assert!(!is_custom_window_position_visible(
        WindowPosition { x: 2200, y: 200 },
        target_resolution(),
        &monitors
    ));
}

#[test]
fn window_partly_on_monitor_needs_minimum_visible_pixels() {
    let monitors = vec![test_monitor(0, 0, 1920, 1080)];
    let size = WindowSize { width: 1280, height: 720 };
    assert!(is_custom_window_position_visible(WindowPosition { x: 1856, y: 0 }, size, &monitors));
    assert!(!is_custom_window_position_visible(WindowPosition { x: 1857, y: 0 }, size, &monitors));
    assert!(is_custom_window_position_visible(WindowPosition { x: 0, y: -656 }, size, &monitors));
    assert!(!is_custom_window_position_visible(WindowPosition { x: 0, y: -657 }, size, &monitors));
    assert!(!is_custom_window_position_visible(WindowPosition { x: 0, y: 0 }, size, &[]));
}

#[test]
fn small_window_must_be_fully_visible() {
    let monitors = vec![test_monitor(0, 0, 100, 100)];
    let size = WindowSize { width: 10, height: 0 };
    assert!(is_custom_window_position_visible(WindowPosition { x: 90, y: 99 }, size, &monitors));
    assert!(!is_custom_window_position_visible(WindowPosition { x: 91, y: 0 }, size, &monitors));
}

#[test]
fn saved_position_text_parses() {
    assert_eq!(parse_custom_window_position("100,200"), Some(WindowPosition { x: 100, y: 200 }));
    assert_eq!(parse_custom_window_position("-5,7\n"), Some(WindowPosition { x: -5, y: 7 }));
    assert_eq!(
        parse_custom_window_position("  +12 ,\t-0 \r\n"),
        Some(WindowPosition { x: 12, y: 0 })
    );
    assert_eq!(
        parse_custom_window_position("\u{3000}-2147483648,2147483647\u{a0}"),
        Some(WindowPosition { x: i32::MIN, y: i32::MAX })
    );
}

#[test]
fn malformed_position_text_is_rejected() {
    assert_eq!(parse_custom_window_position(""), None);
    assert_eq!(parse_custom_window_position("12"), None);
    assert_eq!(parse_custom_window_position("1,2,3"), None);
    assert_eq!(parse_custom_window_position("1,2,"), None);
    assert_eq!(parse_custom_window_position(",2"), None);
    assert_eq!(parse_custom_window_position("a,2"), None);
    assert_eq!(parse_custom_window_position("1,-"), None);
    assert_eq!(parse_custom_window_position("1,+"), None);
    assert_eq!(parse_custom_window_position("1 2,3"), None);
    assert_eq!(parse_custom_window_position("2147483648,0"), None);
    assert_eq!(parse_custom_window_position("0,-2147483649"), None);
    assert_eq!(parse_custom_window_position("99999999999999999999,0"), None);
}

#[test]
fn saved_position_text_has_fixed_format() {
    assert_eq!(format_custom_window_position(WindowPosition { x: 100, y: -20 }), "100,-20\n");
    assert_eq!(format_custom_window_position(WindowPosition { x: 0, y: 7 }), "0,7\n");
    assert_eq!(
        format_custom_window_position(WindowPosition { x: i32::MIN, y: i32::MAX }),
        "-2147483648,2147483647\n"
    );
}

#[test]
fn saved_position_text_round_trips() {
    for position in [
        WindowPosition { x: 0, y: 0 },
        WindowPosition { x: -1400, y: 200 },
        WindowPosition { x: 2200, y: -1 },
        WindowPosition { x: i32::MIN, y: i32::MAX },
    ] {
        let text = format_custom_window_position(position);
        assert_eq!(parse_custom_window_position(&text), Some(position));
    }
}

#[test]
fn restore_step_follows_saved_position_and_monitors() {
    let monitors = vec![test_monitor(0, 0, 1920, 1080)];
    let on_screen = WindowPosition { x: 100, y: 100 };
    let off_screen = WindowPosition { x: 5000, y: 100 };
    let size = target_resolution();

    assert_eq!(
        custom_window_restore_step(true, Some(on_screen), size, &monitors, true),
        CustomWindowRestoreStep::AlreadyDone
    );
    assert_eq!(
        custom_window_restore_step(false, None, size, &monitors, true),
        CustomWindowRestoreStep::NothingSaved
    );
    assert_eq!(
        custom_window_restore_step(false, Some(on_screen), size, &[], true),
        CustomWindowRestoreStep::Wait
    );
    assert_eq!(
        custom_window_restore_step(false, Some(on_screen), size, &monitors, false),
        CustomWindowRestoreStep::Wait
    );
    assert_eq!(
        custom_window_restore_step(false, Some(on_screen), size, &monitors, true),
        CustomWindowRestoreStep::Restore(on_screen)
    );
    assert_eq!(
        custom_window_restore_step(false, Some(off_screen), size, &monitors, true),
        CustomWindowRestoreStep::Forget
    );
}

#[test]
fn tracked_positions_keep_primary_window_moves_in_order() {
    let moves = vec![
        (1, WindowPosition { x: 1, y: 1 }),
        (2, WindowPosition { x: 9, y: 9 }),
        (1, WindowPosition { x: 3, y: 4 }),
    ];
    assert_eq!(
        custom_window_tracked_positions(1, &moves),
        vec![WindowPosition { x: 1, y: 1 }, WindowPosition { x: 3, y: 4 }]
    );
    assert!(custom_window_tracked_positions(7, &moves).is_empty());
}
