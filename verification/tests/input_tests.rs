#![allow(non_snake_case)]

use skyplane::input::{input_update_states, AutopilotClock, InputKeys, InputState, KeyState};

fn assert_close(actual: f32, expected: f32) {
    assert!((actual - expected).abs() < 1e-6, "expected {expected}, got {actual}");
}

fn no_keys() -> InputKeys {
    let up = KeyState { pressed: false, just_pressed: false };
    InputKeys {
        key_w: up,
        arrow_up: up,
        key_s: up,
        arrow_down: up,
        key_a: up,
        arrow_left: up,
        key_d: up,
        arrow_right: up,
        key_r: up,
        key_o: up,
        key_p: up,
    }
}

fn down() -> KeyState {
    KeyState { pressed: true, just_pressed: true }
}

/// Applies an autopilot clock step the way the game does.
fn apply_clock(elapsed: f32, clock: AutopilotClock, delta_secs: f32) -> f32 {
    match clock {
        AutopilotClock::Reset => 0.0,
        AutopilotClock::Advance => elapsed + delta_secs,
    }
}

fn autopilot_toggle_scenario() {
    let mut input = InputState::new();
    let mut elapsed = 0.0;

    elapsed = apply_clock(elapsed, input.update_autopilot_state(false), 1.0);
    assert!(!input.is_autopilot_enabled);
    assert_close(elapsed, 0.0);

    elapsed = apply_clock(elapsed, input.update_autopilot_state(true), 0.25);
    assert!(input.is_autopilot_enabled);
    assert!(input.is_autopilot_toggle_just_pressed);
    assert_close(elapsed, 0.0);

    elapsed = apply_clock(elapsed, input.update_autopilot_state(false), 0.5);
    assert!(input.is_autopilot_enabled);
    assert!(!input.is_autopilot_toggle_just_pressed);
    assert_close(elapsed, 0.5);

    elapsed = apply_clock(elapsed, input.update_autopilot_state(true), 0.25);
    assert!(!input.is_autopilot_enabled);
    assert_close(elapsed, 0.0);
}

#[test]
fn InputPluginTests_input_autopilot_toggle_defaults_off_and_resets_timer() {
    autopilot_toggle_scenario();
}

#[test]
fn PlayerTests_input_autopilot_toggle_defaults_off_and_resets_timer() {
    autopilot_toggle_scenario();
}

#[test]
fn InputPluginTests_input_update_w_shoots_without_braking() {
    let mut keys = no_keys();
    keys.key_w = down();
    let mut inputs = vec![InputState::new(), InputState::new()];

    let (_, play_click) = input_update_states(&mut inputs, &keys, false);

    for input in &inputs {
        assert!(input.is_shoot_pressed);
        assert!(input.is_shoot_just_pressed);
        assert!(!input.is_brake_pressed);
        assert!(!input.is_brake_just_pressed);
    }
    assert!(!play_click);
}

#[test]
fn InputPluginTests_input_update_s_brakes_without_shooting() {
    let mut keys = no_keys();
    keys.key_s = down();
    let mut inputs = vec![InputState::new()];

    let (_, play_click) = input_update_states(&mut inputs, &keys, false);

    let input = inputs[0];
    assert!(!input.is_shoot_pressed);
    assert!(!input.is_shoot_just_pressed);
    assert!(input.is_brake_pressed);
    assert!(input.is_brake_just_pressed);
    assert!(!play_click);
}

#[test]
fn input_update_wasd_keys_do_not_click() {
    for key in 0..4 {
        let mut keys = no_keys();
        match key {
            0 => keys.key_w = down(),
            1 => keys.key_a = down(),
            2 => keys.key_s = down(),
            _ => keys.key_d = down(),
        }
        let mut inputs = vec![InputState::new()];
        let (_, play_click) = input_update_states(&mut inputs, &keys, false);
        assert!(!play_click, "key {key} should not click");
    }
}

#[test]
fn input_update_r_requests_game_reset() {
    let mut keys = no_keys();
    keys.key_r = down();
    let mut inputs = vec![InputState::new()];

    input_update_states(&mut inputs, &keys, false);

    assert!(inputs[0].is_reset_game_pressed);
    assert!(inputs[0].is_reset_game_just_pressed);
}

#[test]
fn InputPluginTests_input_update_release_gate_blocks_player_controls_until_released() {
    let mut keys = no_keys();
    keys.key_d = down();
    let mut locked_input = InputState::new();
    locked_input.require_player_input_release();
    let mut inputs = vec![locked_input];

    input_update_states(&mut inputs, &keys, false);

    assert!(inputs[0].is_player_input_release_required);
    assert!(!inputs[0].is_right_arrow_pressed);
    assert!(!inputs[0].is_right_arrow_just_pressed);

    input_update_states(&mut inputs, &no_keys(), false);

    assert!(!inputs[0].is_player_input_release_required);
    assert!(!inputs[0].is_right_arrow_pressed);
    assert!(!inputs[0].is_right_arrow_just_pressed);
}

#[test]
fn arrows_and_command_keys_click() {
    for key in 0..7 {
        let mut keys = no_keys();
        match key {
            0 => keys.arrow_up = down(),
            1 => keys.arrow_down = down(),
            2 => keys.arrow_left = down(),
            3 => keys.arrow_right = down(),
            4 => keys.key_r = down(),
            5 => keys.key_o = down(),
            _ => keys.key_p = down(),
        }
        let mut inputs = vec![InputState::new()];
        let (_, play_click) = input_update_states(&mut inputs, &keys, false);
        assert!(play_click, "key {key} should click");
    }
    let mut keys = no_keys();
    keys.arrow_up = down();
    let mut none: Vec<InputState> = Vec::new();
    assert!(!input_update_states(&mut none, &keys, false).1);
    assert!(input_update_states(&mut none, &no_keys(), true).1);
}

#[test]
fn autopilot_turns_off_player_controls_but_not_reset() {
    let mut keys = no_keys();
    keys.key_p = down();
    keys.key_w = down();
    keys.key_a = down();
    keys.key_r = down();
    let mut inputs = vec![InputState::new()];

    let (clocks, _) = input_update_states(&mut inputs, &keys, false);

    assert_eq!(clocks, vec![AutopilotClock::Reset]);
    let input = inputs[0];
    assert!(input.is_autopilot_enabled);
    assert!(!input.is_shoot_pressed);
    assert!(!input.is_left_arrow_pressed);
    assert!(input.is_reset_game_just_pressed);

    let (clocks, _) = input_update_states(&mut inputs, &no_keys(), false);
    assert_eq!(clocks, vec![AutopilotClock::Advance]);
}

#[test]
fn arrow_keys_steer_like_letter_keys() {
    let mut keys = no_keys();
    keys.arrow_left = down();
    keys.arrow_up = KeyState { pressed: true, just_pressed: false };
    let mut inputs = vec![InputState::new()];
    input_update_states(&mut inputs, &keys, false);
    assert!(inputs[0].is_left_arrow_pressed);
    assert!(inputs[0].is_left_arrow_just_pressed);
    assert!(inputs[0].is_shoot_pressed);
    assert!(!inputs[0].is_shoot_just_pressed);
    assert!(!inputs[0].is_right_arrow_pressed);
}

#[test]
fn PlayerTests_input_update_w_shoots_without_braking() {
    let mut keys = no_keys();
    keys.key_w = down();
    let mut inputs = vec![InputState::new(), InputState::new()];

    input_update_states(&mut inputs, &keys, false);

    for input in &inputs {
        assert!(input.is_shoot_pressed);
        assert!(input.is_shoot_just_pressed);
        assert!(!input.is_brake_pressed);
        assert!(!input.is_brake_just_pressed);
    }
}

#[test]
fn input_update_r_requests_reset_game() {
    let mut keys = no_keys();
    keys.key_r = down();
    let mut inputs = vec![InputState::new()];

    input_update_states(&mut inputs, &keys, false);

    assert!(inputs[0].is_reset_game_pressed);
    assert!(inputs[0].is_reset_game_just_pressed);
}

#[test]
fn PlayerTests_input_update_release_gate_blocks_player_controls_until_released() {
    let mut keys = no_keys();
    keys.key_d = down();
    let mut locked_input = InputState::new();
    locked_input.require_player_input_release();
    let mut inputs = vec![locked_input];

    input_update_states(&mut inputs, &keys, false);

    assert!(inputs[0].is_player_input_release_required);
    assert!(!inputs[0].is_right_arrow_pressed);
    assert!(!inputs[0].is_right_arrow_just_pressed);

    input_update_states(&mut inputs, &no_keys(), false);

    assert!(!inputs[0].is_player_input_release_required);
    assert!(!inputs[0].is_right_arrow_pressed);
    assert!(!inputs[0].is_right_arrow_just_pressed);
}
