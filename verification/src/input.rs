//! Keyboard state to game input: which player controls are active this
//! frame, the autopilot toggle, the release lock that blocks controls after
//! a game reset, and when a click sound plays.

use vstd::prelude::*;

verus! {

/// Whether a key is held, and whether it went down this frame.
#[derive(Clone, Copy, Debug, PartialEq, Eq, Structural)]
pub struct KeyState {
    pub pressed: bool,
    pub just_pressed: bool,
}

/// The keys that the game reads, as they are this frame.
#[derive(Clone, Copy, Debug, PartialEq, Eq, Structural)]
pub struct InputKeys {
    pub key_w: KeyState,
    pub arrow_up: KeyState,
    pub key_s: KeyState,
    pub arrow_down: KeyState,
    pub key_a: KeyState,
    pub arrow_left: KeyState,
    pub key_d: KeyState,
    pub arrow_right: KeyState,
    pub key_r: KeyState,
    pub key_o: KeyState,
    pub key_p: KeyState,
}

/// The game's view of the input, refreshed every frame.
#[derive(Clone, Copy, Debug, PartialEq, Eq, Structural)]
pub struct InputState {
    pub is_autopilot_enabled: bool,
    pub is_autopilot_toggle_just_pressed: bool,
    /// Set by a game reset: player controls stay off until every control
    /// key has been let go.
    pub is_player_input_release_required: bool,
    pub is_shoot_pressed: bool,
    pub is_shoot_just_pressed: bool,
    pub is_reset_game_pressed: bool,
    pub is_reset_game_just_pressed: bool,
    pub is_brake_pressed: bool,
    pub is_brake_just_pressed: bool,
    pub is_left_arrow_pressed: bool,
    pub is_left_arrow_just_pressed: bool,
    pub is_right_arrow_pressed: bool,
    pub is_right_arrow_just_pressed: bool,
    pub is_ui_mini_map_viewport_toggle_pressed: bool,
    pub is_ui_mini_map_viewport_toggle_just_pressed: bool,
}

/// What happens to the autopilot's clock this frame.
#[derive(Clone, Copy, Debug, PartialEq, Eq, Structural)]
pub enum AutopilotClock {
    /// Back to zero.
    Reset,
    /// Forward by the frame's duration.
    Advance,
}

impl InputState {
    /// Everything off: no autopilot, no release lock, no key.
    pub fn new() -> (state: InputState)
        ensures
            state == spec_default_input(),
    {
        InputState {
            is_autopilot_enabled: false,
            is_autopilot_toggle_just_pressed: false,
            is_player_input_release_required: false,
            is_shoot_pressed: false,
            is_shoot_just_pressed: false,
            is_reset_game_pressed: false,
            is_reset_game_just_pressed: false,
            is_brake_pressed: false,
            is_brake_just_pressed: false,
            is_left_arrow_pressed: false,
            is_left_arrow_just_pressed: false,
            is_right_arrow_pressed: false,
            is_right_arrow_just_pressed: false,
            is_ui_mini_map_viewport_toggle_pressed: false,
            is_ui_mini_map_viewport_toggle_just_pressed: false,
        }
    }

    /// Blocks the player controls until the control keys are let go.
    pub fn require_player_input_release(&mut self)
        ensures
            *final(self) == spec_release_required(*old(self)),
    {
        self.is_player_input_release_required = true;
    }

    /// Records whether the autopilot key went down this frame, flips the
    /// autopilot if it did, and says what happens to the autopilot's clock:
    /// it restarts on a toggle and while the autopilot is off, and runs
    /// while it is on.
    pub fn update_autopilot_state(&mut self, is_toggle_just_pressed: bool) -> (clock: AutopilotClock)
        ensures
            *final(self) == spec_autopilot_toggled(*old(self), is_toggle_just_pressed),
            clock == spec_autopilot_clock(*old(self), is_toggle_just_pressed),
    {
        self.is_autopilot_toggle_just_pressed = is_toggle_just_pressed;
        if is_toggle_just_pressed {
            self.is_autopilot_enabled = !self.is_autopilot_enabled;
            return AutopilotClock::Reset;
        }
        if self.is_autopilot_enabled {
            AutopilotClock::Advance
        } else {
            AutopilotClock::Reset
        }
    }
}

/// The state with the player controls blocked until the control keys are
/// let go.
pub open spec fn spec_release_required(state: InputState) -> InputState {
    InputState { is_player_input_release_required: true, ..state }
}

/// The state before any input.
pub open spec fn spec_default_input() -> InputState {
    InputState {
        is_autopilot_enabled: false,
        is_autopilot_toggle_just_pressed: false,
        is_player_input_release_required: false,
        is_shoot_pressed: false,
        is_shoot_just_pressed: false,
        is_reset_game_pressed: false,
        is_reset_game_just_pressed: false,
        is_brake_pressed: false,
        is_brake_just_pressed: false,
        is_left_arrow_pressed: false,
        is_left_arrow_just_pressed: false,
        is_right_arrow_pressed: false,
        is_right_arrow_just_pressed: false,
        is_ui_mini_map_viewport_toggle_pressed: false,
        is_ui_mini_map_viewport_toggle_just_pressed: false,
    }
}

/// The state after the autopilot key was (or was not) pressed.
pub open spec fn spec_autopilot_toggled(state: InputState, toggle: bool) -> InputState {
    InputState {
        is_autopilot_toggle_just_pressed: toggle,
        is_autopilot_enabled: state.is_autopilot_enabled != toggle,
        ..state
    }
}

/// The autopilot clock's step for that key press.
pub open spec fn spec_autopilot_clock(state: InputState, toggle: bool) -> AutopilotClock {
    if !toggle && state.is_autopilot_enabled {
        AutopilotClock::Advance
    } else {
        AutopilotClock::Reset
    }
}

/// Whether any key that steers, shoots or brakes the player is held.
pub open spec fn any_player_key_pressed(keys: InputKeys) -> bool {
    keys.key_s.pressed || keys.key_w.pressed || keys.arrow_up.pressed || keys.arrow_down.pressed
        || keys.key_a.pressed || keys.arrow_left.pressed || keys.key_d.pressed
        || keys.arrow_right.pressed
}

/// The input after reading this frame's keys, once the autopilot toggle
/// has been applied: the release lock lifts when no control key is held;
/// player controls act only with the autopilot off and the lock released;
/// reset and mini-map keys are read as they are.
pub open spec fn spec_read_keys(state: InputState, keys: InputKeys) -> InputState {
    let locked = state.is_player_input_release_required && any_player_key_pressed(keys);
    let enabled = !state.is_autopilot_enabled && !locked;
    InputState {
        is_player_input_release_required: locked,
        is_shoot_pressed: enabled && (keys.key_w.pressed || keys.arrow_up.pressed),
        is_shoot_just_pressed: enabled && (keys.key_w.just_pressed || keys.arrow_up.just_pressed),
        is_reset_game_pressed: keys.key_r.pressed,
        is_reset_game_just_pressed: keys.key_r.just_pressed,
        is_brake_pressed: enabled && (keys.key_s.pressed || keys.arrow_down.pressed),
        is_brake_just_pressed: enabled && (keys.key_s.just_pressed || keys.arrow_down.just_pressed),
        is_left_arrow_pressed: enabled && (keys.key_a.pressed || keys.arrow_left.pressed),
        is_left_arrow_just_pressed: enabled && (keys.key_a.just_pressed
            || keys.arrow_left.just_pressed),
        is_right_arrow_pressed: enabled && (keys.key_d.pressed || keys.arrow_right.pressed),
        is_right_arrow_just_pressed: enabled && (keys.key_d.just_pressed
            || keys.arrow_right.just_pressed),
        is_ui_mini_map_viewport_toggle_pressed: keys.key_o.pressed,
        is_ui_mini_map_viewport_toggle_just_pressed: keys.key_o.just_pressed,
        ..state
    }
}

/// The input after a whole frame: the autopilot key, then the other keys.
pub open spec fn spec_input_after(state: InputState, keys: InputKeys) -> InputState {
    spec_read_keys(spec_autopilot_toggled(state, keys.key_p.just_pressed), keys)
}

/// Whether an input asks for a click sound this frame: an arrow key, the
/// reset key, the autopilot key or the mini-map key went down. Letter keys
/// that steer, shoot or brake make no click.
pub open spec fn spec_input_clicks(keys: InputKeys) -> bool {
    keys.arrow_up.just_pressed || keys.arrow_down.just_pressed || keys.arrow_left.just_pressed
        || keys.arrow_right.just_pressed || keys.key_r.just_pressed || keys.key_p.just_pressed
        || keys.key_o.just_pressed
}

/// Refreshes one input from this frame's keys. Returns the autopilot
/// clock's step and whether this input asks for a click sound.
pub fn input_update_state(state: &mut InputState, keys: &InputKeys) -> (outcome: (AutopilotClock, bool))
    ensures
        *final(state) == spec_input_after(*old(state), *keys),
        outcome.0 == spec_autopilot_clock(*old(state), keys.key_p.just_pressed),
        outcome.1 == spec_input_clicks(*keys),
{
    let clock = state.update_autopilot_state(keys.key_p.just_pressed);
    let is_any_player_input_pressed = keys.key_s.pressed || keys.key_w.pressed
        || keys.arrow_up.pressed || keys.arrow_down.pressed || keys.key_a.pressed
        || keys.arrow_left.pressed || keys.key_d.pressed || keys.arrow_right.pressed;
    if state.is_player_input_release_required && !is_any_player_input_pressed {
        state.is_player_input_release_required = false;
    }
    let enabled = !state.is_autopilot_enabled && !state.is_player_input_release_required;
    state.is_shoot_pressed = enabled && (keys.key_w.pressed || keys.arrow_up.pressed);
    state.is_shoot_just_pressed = enabled && (keys.key_w.just_pressed || keys.arrow_up.just_pressed);
    state.is_reset_game_pressed = keys.key_r.pressed;
    state.is_reset_game_just_pressed = keys.key_r.just_pressed;
    state.is_brake_pressed = enabled && (keys.key_s.pressed || keys.arrow_down.pressed);
    state.is_brake_just_pressed = enabled && (keys.key_s.just_pressed
        || keys.arrow_down.just_pressed);
    state.is_left_arrow_pressed = enabled && (keys.key_a.pressed || keys.arrow_left.pressed);
    state.is_left_arrow_just_pressed = enabled && (keys.key_a.just_pressed
        || keys.arrow_left.just_pressed);
    state.is_right_arrow_pressed = enabled && (keys.key_d.pressed || keys.arrow_right.pressed);
    state.is_right_arrow_just_pressed = enabled && (keys.key_d.just_pressed
        || keys.arrow_right.just_pressed);
    state.is_ui_mini_map_viewport_toggle_pressed = keys.key_o.pressed;
    state.is_ui_mini_map_viewport_toggle_just_pressed = keys.key_o.just_pressed;
    let clicks = keys.arrow_up.just_pressed || keys.arrow_down.just_pressed
        || keys.arrow_left.just_pressed || keys.arrow_right.just_pressed
        || state.is_reset_game_just_pressed || state.is_autopilot_toggle_just_pressed
        || state.is_ui_mini_map_viewport_toggle_just_pressed;
    (clock, clicks)
}

/// Refreshes every input from this frame's keys and mouse. Returns each
/// input's autopilot clock step, in order, and whether one click sound
/// plays: some input asked for it or the left mouse button went down.
pub fn input_update_states(
    states: &mut Vec<InputState>,
    keys: &InputKeys,
    mouse_left_just_pressed: bool,
) -> (outcome: (Vec<AutopilotClock>, bool))
    ensures
        final(states)@.len() == old(states)@.len(),
        forall|i: int|
            0 <= i < old(states)@.len() ==> #[trigger] final(states)@[i] == spec_input_after(
                old(states)@[i],
                *keys,
            ),
        outcome.0@.len() == old(states)@.len(),
        forall|i: int|
            0 <= i < old(states)@.len() ==> #[trigger] outcome.0@[i] == spec_autopilot_clock(
                old(states)@[i],
                keys.key_p.just_pressed,
            ),
        outcome.1 == ((old(states)@.len() > 0 && spec_input_clicks(*keys))
            || mouse_left_just_pressed),
{
    let ghost original = states@;
    let mut clocks: Vec<AutopilotClock> = Vec::new();
    let mut clicked = false;
    let mut i: usize = 0;
    while i < states.len()
        invariant
            i <= states@.len(),
            states@.len() == original.len(),
            clocks@.len() == i,
            forall|j: int| 0 <= j < i ==> #[trigger] states@[j] == spec_input_after(original[j], *keys),
            forall|j: int| i <= j < states@.len() ==> #[trigger] states@[j] == original[j],
            forall|j: int|
                0 <= j < i ==> #[trigger] clocks@[j] == spec_autopilot_clock(
                    original[j],
                    keys.key_p.just_pressed,
                ),
            clicked == (i > 0 && spec_input_clicks(*keys)),
        decreases states@.len() - i,
    {
        let mut state = states[i];
        let (clock, clicks) = input_update_state(&mut state, keys);
        states.set(i, state);
        clocks.push(clock);
        clicked = clicked || clicks;
        i = i + 1;
    }
    (clocks, clicked || mouse_left_just_pressed)
}

/// Whether the game resets this frame: the first input saw the reset key
/// go down.
pub fn reset_game_requested(inputs: &[InputState]) -> (requested: bool)
    ensures
        requested == (inputs@.len() > 0 && inputs@[0].is_reset_game_just_pressed),
{
    inputs.len() > 0 && inputs[0].is_reset_game_just_pressed
}

/// After a reset, every input blocks the player controls until the control
/// keys are let go; nothing else changes.
pub fn require_player_input_release_all(inputs: &mut Vec<InputState>)
    ensures
        final(inputs)@.len() == old(inputs)@.len(),
        forall|i: int|
            0 <= i < old(inputs)@.len() ==> #[trigger] final(inputs)@[i] == spec_release_required(
                old(inputs)@[i],
            ),
{
    let ghost original = inputs@;
    let mut i: usize = 0;
    while i < inputs.len()
        invariant
            i <= inputs@.len() == original.len(),
            forall|j: int|
                0 <= j < i ==> #[trigger] inputs@[j] == spec_release_required(original[j]),
            forall|j: int| i <= j < inputs@.len() ==> #[trigger] inputs@[j] == original[j],
        decreases inputs@.len() - i,
    {
        let mut input = inputs[i];
        input.require_player_input_release();
        inputs.set(i, input);
        i = i + 1;
    }
}

/// Laws of the input: with the autopilot on, or while the release lock is
/// set, no player control is active; reading keys never sets the lock,
/// and it lifts once no control key is held; reset and mini-map keys are
/// read as they are; toggling the autopilot twice leaves it as it was.
pub proof fn lemma_input_laws(state: InputState, keys: InputKeys)
    ensures
        ({
            let next = spec_input_after(state, keys);
            let player_controls = next.is_shoot_pressed || next.is_shoot_just_pressed
                || next.is_brake_pressed || next.is_brake_just_pressed
                || next.is_left_arrow_pressed || next.is_left_arrow_just_pressed
                || next.is_right_arrow_pressed || next.is_right_arrow_just_pressed;
            &&& (next.is_autopilot_enabled || next.is_player_input_release_required)
                ==> !player_controls
            &&& next.is_player_input_release_required ==> state.is_player_input_release_required
            &&& !any_player_key_pressed(keys) ==> !next.is_player_input_release_required
            &&& next.is_reset_game_just_pressed == keys.key_r.just_pressed
            &&& next.is_ui_mini_map_viewport_toggle_just_pressed == keys.key_o.just_pressed
        }),
        spec_autopilot_toggled(spec_autopilot_toggled(state, true), true).is_autopilot_enabled
            == state.is_autopilot_enabled,
{
}

/// Which key drives which control: while the player controls are enabled
/// (autopilot off and no release lock after the frame's keys), the left
/// control is on exactly when A or the left arrow is held, the right
/// control exactly when D or the right arrow is held, shooting with W or
/// the up arrow and braking with S or the down arrow; each is "just
/// pressed" exactly when one of its keys just went down. Steering is
/// mirrored: swapping the left and right keys swaps the two controls.
pub proof fn lemma_input_controls_follow_keys(state: InputState, keys: InputKeys)
    ensures
        ({
            let next = spec_input_after(state, keys);
            !next.is_autopilot_enabled && !next.is_player_input_release_required ==> {
                &&& next.is_left_arrow_pressed == (keys.key_a.pressed || keys.arrow_left.pressed)
                &&& next.is_left_arrow_just_pressed == (keys.key_a.just_pressed
                    || keys.arrow_left.just_pressed)
                &&& next.is_right_arrow_pressed == (keys.key_d.pressed || keys.arrow_right.pressed)
                &&& next.is_right_arrow_just_pressed == (keys.key_d.just_pressed
                    || keys.arrow_right.just_pressed)
                &&& next.is_shoot_pressed == (keys.key_w.pressed || keys.arrow_up.pressed)
                &&& next.is_shoot_just_pressed == (keys.key_w.just_pressed
                    || keys.arrow_up.just_pressed)
                &&& next.is_brake_pressed == (keys.key_s.pressed || keys.arrow_down.pressed)
                &&& next.is_brake_just_pressed == (keys.key_s.just_pressed
                    || keys.arrow_down.just_pressed)
            }
        }),
        ({
            let mirrored = InputKeys {
                key_a: keys.key_d,
                arrow_left: keys.arrow_right,
                key_d: keys.key_a,
                arrow_right: keys.arrow_left,
                ..keys
            };
            let next = spec_input_after(state, keys);
            let next_mirrored = spec_input_after(state, mirrored);
            &&& next_mirrored.is_left_arrow_pressed == next.is_right_arrow_pressed
            &&& next_mirrored.is_left_arrow_just_pressed == next.is_right_arrow_just_pressed
            &&& next_mirrored.is_right_arrow_pressed == next.is_left_arrow_pressed
            &&& next_mirrored.is_right_arrow_just_pressed == next.is_left_arrow_just_pressed
        }),
{
}

} // verus!
