use bevy::math::Vec3;
use skyplane::input::InputState;
use skyplane::mini_map::{
    ui_mini_map_target_center_from_player, ui_mini_map_toggle_viewport_update,
    ui_mini_map_toggle_viewport_visibility, ui_mini_map_viewport_for_physical_size,
    MiniMapViewport, UIMiniMapTarget, UI_MINI_MAP_VIEWPORT_MARGIN_PIXELS,
};
use skyplane::window_position::WindowSize;

#[test]
fn ui_mini_map_viewport_is_square_in_the_upper_right() {
    let viewport = ui_mini_map_viewport_for_physical_size(WindowSize { width: 1280, height: 720 });

    assert_eq!(viewport.size, 161);
    assert_eq!(
        (viewport.x, viewport.y),
        (1280 - 161 - UI_MINI_MAP_VIEWPORT_MARGIN_PIXELS, UI_MINI_MAP_VIEWPORT_MARGIN_PIXELS)
    );
    assert_eq!(1280 - viewport.x - viewport.size, UI_MINI_MAP_VIEWPORT_MARGIN_PIXELS);
    assert_eq!(viewport.y, UI_MINI_MAP_VIEWPORT_MARGIN_PIXELS);
}

#[test]
fn ui_mini_map_viewport_size_is_clamped() {
    assert_eq!(
        ui_mini_map_viewport_for_physical_size(WindowSize { width: 3840, height: 2160 }),
        MiniMapViewport { x: 3840 - 260 - 48, y: 48, size: 260 }
    );
    assert_eq!(
        ui_mini_map_viewport_for_physical_size(WindowSize { width: 400, height: 300 }),
        MiniMapViewport { x: 400 - 120 - 48, y: 48, size: 120 }
    );
    assert_eq!(
        ui_mini_map_viewport_for_physical_size(WindowSize { width: 100, height: 100 }),
        MiniMapViewport { x: 0, y: 48, size: 52 }
    );
    assert_eq!(
        ui_mini_map_viewport_for_physical_size(WindowSize { width: 0, height: 0 }),
        MiniMapViewport { x: 0, y: 0, size: 1 }
    );
    assert_eq!(
        ui_mini_map_viewport_for_physical_size(WindowSize { width: u32::MAX, height: u32::MAX }).size,
        260
    );
}

#[test]
fn ui_mini_map_viewport_rounds_to_nearest_pixel() {
    assert_eq!(ui_mini_map_viewport_for_physical_size(WindowSize { width: 900, height: 648 }).size, 144);
    assert_eq!(ui_mini_map_viewport_for_physical_size(WindowSize { width: 900, height: 651 }).size, 145);
}

#[test]
fn ui_mini_map_player_target_uses_player_translation() {
    let fallback_center = Vec3::new(2.0, 0.0, 3.0);
    let player_translation = Vec3::new(9.0, 4.0, -7.0);

    assert_eq!(
        ui_mini_map_target_center_from_player(
            UIMiniMapTarget::PlayerComponent,
            fallback_center,
            Some(player_translation),
        ),
        Vec3::new(9.0, 4.0, -7.0)
    );
}

#[test]
fn ui_mini_map_none_target_uses_fallback_center() {
    let fallback_center = Vec3::new(2.0, 0.0, 3.0);
    let player_translation = Vec3::new(9.0, 4.0, -7.0);

    assert_eq!(
        ui_mini_map_target_center_from_player(
            UIMiniMapTarget::FixedCenter,
            fallback_center,
            Some(player_translation),
        ),
        fallback_center
    );
}

#[test]
fn ui_mini_map_player_target_without_player_uses_fallback_center() {
    let fallback_center = Vec3::new(2.0, 0.0, 3.0);
    assert_eq!(
        ui_mini_map_target_center_from_player(UIMiniMapTarget::PlayerComponent, fallback_center, None),
        fallback_center
    );
}

#[test]
fn ui_mini_map_toggle_viewport_uses_debug_draw_input_state() {
    let mut input = InputState::new();
    input.is_ui_mini_map_viewport_toggle_just_pressed = true;
    let is_visible = ui_mini_map_toggle_viewport_update(false, &[input]);
    assert!(is_visible);

    input.is_ui_mini_map_viewport_toggle_just_pressed = false;
    let is_visible = ui_mini_map_toggle_viewport_update(is_visible, &[input]);
    assert!(is_visible);
}

#[test]
fn ui_mini_map_toggle_needs_exactly_one_input() {
    let mut input = InputState::new();
    input.is_ui_mini_map_viewport_toggle_just_pressed = true;
    assert!(!ui_mini_map_toggle_viewport_update(false, &[]));
    assert!(!ui_mini_map_toggle_viewport_update(false, &[input, input]));
    assert!(!ui_mini_map_toggle_viewport_visibility(
        ui_mini_map_toggle_viewport_visibility(false, true),
        true
    ));
}

#[test]
fn ui_mini_map_default_target_is_none() {
    let target = UIMiniMapTarget::default();

    assert_eq!(target, UIMiniMapTarget::FixedCenter);
}
