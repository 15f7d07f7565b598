use skyplane::input::{reset_game_requested, require_player_input_release_all, InputState};
use skyplane::player::{player_controls, player_manual_bank, ManualBank, PlayerShot, SpeedMode};

#[test]
fn manual_bank_needs_exactly_one_side() {
    assert_eq!(player_manual_bank(true, false), ManualBank::Left);
    assert_eq!(player_manual_bank(false, true), ManualBank::Right);
    assert_eq!(player_manual_bank(true, true), ManualBank::Level);
    assert_eq!(player_manual_bank(false, false), ManualBank::Level);
}

#[test]
fn braking_steps_on_press_and_repeats_after_timer() {
    let mut input = InputState::new();
    input.is_brake_pressed = true;
    input.is_brake_just_pressed = true;
    assert_eq!(player_controls(&input, false, false, false, false).speed_mode, SpeedMode::BrakeStep);
    input.is_brake_just_pressed = false;
    assert_eq!(player_controls(&input, false, false, false, false).speed_mode, SpeedMode::HoldBrake);
    assert_eq!(player_controls(&input, true, true, false, false).speed_mode, SpeedMode::BrakeStep);
}

#[test]
fn turning_and_cruising_pick_their_speed_modes() {
    let input = InputState::new();
    assert_eq!(player_controls(&input, true, true, true, true).speed_mode, SpeedMode::Turn);
    assert_eq!(player_controls(&input, false, true, true, true).speed_mode, SpeedMode::Accelerate);
    assert_eq!(player_controls(&input, false, true, true, true).shot, PlayerShot::NoShot);
}

#[test]
fn firing_shoots_at_once_then_repeats_after_delay() {
    let mut input = InputState::new();
    input.is_shoot_pressed = true;
    input.is_shoot_just_pressed = true;
    assert_eq!(player_controls(&input, false, true, false, false).shot, PlayerShot::FirstShot);
    input.is_shoot_just_pressed = false;
    assert_eq!(player_controls(&input, false, true, false, true).shot, PlayerShot::NoShot);
    assert_eq!(player_controls(&input, false, true, true, false).shot, PlayerShot::NoShot);
    assert_eq!(player_controls(&input, false, true, true, true).shot, PlayerShot::RepeatShot);
}

#[test]
fn autopilot_ignores_manual_fire_and_brake() {
    let mut input = InputState::new();
    input.is_autopilot_enabled = true;
    input.is_shoot_pressed = true;
    input.is_shoot_just_pressed = true;
    input.is_brake_pressed = true;
    input.is_brake_just_pressed = true;
    let controls = player_controls(&input, true, true, true, true);
    assert_eq!(controls.shot, PlayerShot::NoShot);
    assert_eq!(controls.speed_mode, SpeedMode::Turn);
}

#[test]
fn reset_follows_first_input_and_locks_controls() {
    let mut pressed = InputState::new();
    pressed.is_reset_game_just_pressed = true;
    assert!(!reset_game_requested(&[]));
    assert!(reset_game_requested(&[pressed, InputState::new()]));
    assert!(!reset_game_requested(&[InputState::new(), pressed]));

    let mut inputs = vec![InputState::new(), pressed];
    require_player_input_release_all(&mut inputs);
    assert!(inputs.iter().all(|input| input.is_player_input_release_required));
    assert!(inputs[1].is_reset_game_just_pressed);
}
