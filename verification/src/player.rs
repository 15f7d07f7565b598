//! The player's per-frame control decisions: which way the manual controls
//! bank the plane, whether it brakes, and when it fires. Speeds, angles and
//! timers stay with the physics; this module decides from their outcomes.

use vstd::prelude::*;

use crate::input::InputState;

verus! {

/// Which way the manual controls bank the plane.
#[derive(Clone, Copy, Debug, PartialEq, Eq, Structural)]
pub enum ManualBank {
    Left,
    Right,
    Level,
}

/// How the plane's target speed is chosen this frame.
#[derive(Clone, Copy, Debug, PartialEq, Eq, Structural)]
pub enum SpeedMode {
    /// A brake step: slow down by the brake rate (and restart the brake
    /// repeat timer).
    BrakeStep,
    /// Brake held between steps: keep the current speed.
    HoldBrake,
    /// Turning: slow down by the turn rate.
    Turn,
    /// Accelerate toward the top speed.
    Accelerate,
}

/// Whether the plane fires this frame.
#[derive(Clone, Copy, Debug, PartialEq, Eq, Structural)]
pub enum PlayerShot {
    NoShot,
    /// The fire key just went down: shoot, and start the delay before
    /// holding it repeats.
    FirstShot,
    /// The fire key is held past the delay and the repeat timer ran out:
    /// shoot, and restart the repeat timer.
    RepeatShot,
}

/// The frame's control decisions for the player.
#[derive(Clone, Copy, Debug, PartialEq, Eq, Structural)]
pub struct PlayerControls {
    pub speed_mode: SpeedMode,
    pub shot: PlayerShot,
}

/// The manual bank: left alone banks left, right alone banks right, both
/// or neither keep the plane level.
pub fn player_manual_bank(left_pressed: bool, right_pressed: bool) -> (bank: ManualBank)
    ensures
        bank == if left_pressed && !right_pressed {
            ManualBank::Left
        } else if right_pressed && !left_pressed {
            ManualBank::Right
        } else {
            ManualBank::Level
        },
{
    match (left_pressed, right_pressed) {
        (true, false) => ManualBank::Left,
        (false, true) => ManualBank::Right,
        _ => ManualBank::Level,
    }
}

/// The decisions, from the input, whether the plane is turning (its bank
/// input is not level), and whether the brake timer, the repeat-fire delay
/// and the repeat-fire timer have run out. Braking and firing need the
/// keyboard, which the autopilot takes over.
pub open spec fn spec_player_controls(
    input: InputState,
    is_turning: bool,
    brake_timer_done: bool,
    repeat_unlocked: bool,
    fire_timer_done: bool,
) -> PlayerControls {
    let keyboard = !input.is_autopilot_enabled;
    let brake_pressed = keyboard && input.is_brake_pressed;
    let brake_just_pressed = keyboard && input.is_brake_just_pressed;
    let brake_now = brake_just_pressed || (brake_pressed && brake_timer_done);
    let shoot_pressed = keyboard && input.is_shoot_pressed;
    let shoot_just_pressed = keyboard && input.is_shoot_just_pressed;
    PlayerControls {
        speed_mode: if brake_now {
            SpeedMode::BrakeStep
        } else if brake_pressed {
            SpeedMode::HoldBrake
        } else if is_turning {
            SpeedMode::Turn
        } else {
            SpeedMode::Accelerate
        },
        shot: if shoot_just_pressed {
            PlayerShot::FirstShot
        } else if shoot_pressed && repeat_unlocked && fire_timer_done {
            PlayerShot::RepeatShot
        } else {
            PlayerShot::NoShot
        },
    }
}

/// Decides how the player's speed is chosen and whether it fires.
pub fn player_controls(
    input: &InputState,
    is_turning: bool,
    brake_timer_done: bool,
    repeat_unlocked: bool,
    fire_timer_done: bool,
) -> (controls: PlayerControls)
    ensures
        controls == spec_player_controls(
            *input,
            is_turning,
            brake_timer_done,
            repeat_unlocked,
            fire_timer_done,
        ),
{
    let is_player_keyboard_enabled = !input.is_autopilot_enabled;
    let is_brake_pressed = is_player_keyboard_enabled && input.is_brake_pressed;
    let is_brake_just_pressed = is_player_keyboard_enabled && input.is_brake_just_pressed;
    let should_brake_now = is_brake_just_pressed || (is_brake_pressed && brake_timer_done);
    let speed_mode = if should_brake_now {
        SpeedMode::BrakeStep
    } else if is_brake_pressed {
        SpeedMode::HoldBrake
    } else if is_turning {
        SpeedMode::Turn
    } else {
        SpeedMode::Accelerate
    };
    let is_shoot_pressed = is_player_keyboard_enabled && input.is_shoot_pressed;
    let is_shoot_just_pressed = is_player_keyboard_enabled && input.is_shoot_just_pressed;
    let shot = if is_shoot_just_pressed {
        PlayerShot::FirstShot
    } else if is_shoot_pressed && repeat_unlocked && fire_timer_done {
        PlayerShot::RepeatShot
    } else {
        PlayerShot::NoShot
    };
    PlayerControls { speed_mode, shot }
}

/// Under autopilot the plane neither brakes nor fires; holding fire
/// repeats only after the delay and the repeat timer; a fresh press always
/// fires at once.
pub proof fn lemma_player_control_laws(
    input: InputState,
    is_turning: bool,
    brake_timer_done: bool,
    repeat_unlocked: bool,
    fire_timer_done: bool,
)
    ensures
        ({
            let controls = spec_player_controls(
                input,
                is_turning,
                brake_timer_done,
                repeat_unlocked,
                fire_timer_done,
            );
            &&& input.is_autopilot_enabled ==> controls.shot == PlayerShot::NoShot
                && controls.speed_mode != SpeedMode::BrakeStep && controls.speed_mode
                != SpeedMode::HoldBrake
            &&& controls.shot == PlayerShot::RepeatShot ==> repeat_unlocked && fire_timer_done
            &&& !input.is_autopilot_enabled && input.is_shoot_just_pressed ==> controls.shot
                == PlayerShot::FirstShot
        }),
{
}

/// How the speed mode is chosen, in order of precedence: a due brake step
/// (the brake just went down, or is held and its timer ran out) comes
/// first; a brake held between steps keeps the current speed whether or
/// not the plane turns; turning slows the plane only when the brake is not
/// held; otherwise the plane accelerates. Without the keyboard (autopilot
/// on) the brake is ignored, and the turning state only matters when the
/// brake is not held.
pub proof fn lemma_player_speed_mode_precedence(
    input: InputState,
    is_turning: bool,
    brake_timer_done: bool,
    repeat_unlocked: bool,
    fire_timer_done: bool,
)
    ensures
        ({
            let mode = spec_player_controls(
                input,
                is_turning,
                brake_timer_done,
                repeat_unlocked,
                fire_timer_done,
            ).speed_mode;
            let mode_turning = spec_player_controls(
                input,
                true,
                brake_timer_done,
                repeat_unlocked,
                fire_timer_done,
            ).speed_mode;
            let mode_straight = spec_player_controls(
                input,
                false,
                brake_timer_done,
                repeat_unlocked,
                fire_timer_done,
            ).speed_mode;
            let keyboard = !input.is_autopilot_enabled;
            let held = keyboard && input.is_brake_pressed;
            let step_due = keyboard && (input.is_brake_just_pressed || (input.is_brake_pressed
                && brake_timer_done));
            &&& (mode == SpeedMode::BrakeStep) == step_due
            &&& (mode == SpeedMode::HoldBrake) == (held && !step_due)
            &&& (mode == SpeedMode::Turn) == (is_turning && !held && !step_due)
            &&& (mode == SpeedMode::Accelerate) == (!is_turning && !held && !step_due)
            &&& held ==> mode_turning == mode_straight
        }),
{
}

} // verus!
