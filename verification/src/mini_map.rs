//! Layout and focus rules of the top-down mini-map: where its square
//! viewport sits on screen, what it centers on, and its visibility toggle.

use vstd::prelude::*;

use crate::input::InputState;
use crate::window_position::WindowSize;

verus! {

/// Space kept free along each screen edge by the heads-up display.
pub const SCREEN_PADDING_TOP: u32 = 24;
pub const SCREEN_PADDING_LEFT: u32 = 24;
pub const SCREEN_PADDING_BOTTOM: u32 = 24;
pub const SCREEN_PADDING_RIGHT: u32 = 24;

/// Gap between the mini-map and the top and right window edges.
pub const UI_MINI_MAP_VIEWPORT_MARGIN_PIXELS: u32 = SCREEN_PADDING_RIGHT * 2;

/// Largest and smallest side of the mini-map, in physical pixels.
pub const UI_MINI_MAP_VIEWPORT_MAX_SIZE_PIXELS: u32 = 260;
pub const UI_MINI_MAP_VIEWPORT_MIN_SIZE_PIXELS: u32 = 120;

/// The mini-map takes this many hundredths of the usable screen side.
pub const UI_MINI_MAP_VIEWPORT_SIZE_PERCENT: u64 = 24;

/// A square viewport: its top-left corner and its side, in physical pixels.
#[derive(Clone, Copy, Debug, PartialEq, Eq, Structural)]
pub struct MiniMapViewport {
    pub x: u32,
    pub y: u32,
    pub size: u32,
}

/// What the mini-map centers on.
#[derive(Clone, Copy, Debug, PartialEq, Eq, Structural)]
pub enum UIMiniMapTarget {
    /// The fixed center of the mini-map's area.
    FixedCenter,
    /// The player, while there is one.
    PlayerComponent,
}

impl Default for UIMiniMapTarget {
    /// A mini-map centers on its fixed center until it is given a target.
    fn default() -> (target: Self)
        ensures
            target == UIMiniMapTarget::FixedCenter,
    {
        UIMiniMapTarget::FixedCenter
    }
}

pub open spec fn saturating_sub(a: int, b: int) -> int {
    if a >= b {
        a - b
    } else {
        0
    }
}

pub open spec fn min_of(a: int, b: int) -> int {
    if a <= b {
        a
    } else {
        b
    }
}

/// The side of the window that the heads-up display leaves usable.
pub open spec fn available_size(window: WindowSize) -> int {
    let available_width = saturating_sub(
        window.width as int,
        SCREEN_PADDING_LEFT + SCREEN_PADDING_RIGHT,
    );
    let available_height = saturating_sub(
        window.height as int,
        SCREEN_PADDING_TOP + SCREEN_PADDING_BOTTOM,
    );
    min_of(min_of(min_of(window.width as int, window.height as int), available_width), available_height)
}

/// `percent` hundredths of `value`, rounded to the nearest whole number.
pub open spec fn percent_rounded(value: int, percent: int) -> int {
    (value * percent + 50) / 100
}

/// The side of the mini-map for a window.
pub open spec fn viewport_size(window: WindowSize) -> int {
    let available = available_size(window);
    let desired = percent_rounded(available, UI_MINI_MAP_VIEWPORT_SIZE_PERCENT as int);
    let clamped = if desired < UI_MINI_MAP_VIEWPORT_MIN_SIZE_PIXELS {
        UI_MINI_MAP_VIEWPORT_MIN_SIZE_PIXELS as int
    } else if desired > UI_MINI_MAP_VIEWPORT_MAX_SIZE_PIXELS {
        UI_MINI_MAP_VIEWPORT_MAX_SIZE_PIXELS as int
    } else {
        desired
    };
    min_of(clamped, if available >= 1 { available } else { 1 })
}

/// The mini-map's viewport for a window: a square in the upper right corner.
pub open spec fn spec_viewport_for_physical_size(window: WindowSize) -> MiniMapViewport {
    let size = viewport_size(window);
    MiniMapViewport {
        x: saturating_sub(window.width as int, size + UI_MINI_MAP_VIEWPORT_MARGIN_PIXELS) as u32,
        y: min_of(
            UI_MINI_MAP_VIEWPORT_MARGIN_PIXELS as int,
            saturating_sub(window.height as int, size),
        ) as u32,
        size: size as u32,
    }
}

/// Places the mini-map in a window of the given physical size: a square
/// whose side is 24% of the usable screen side (rounded to the nearest
/// pixel, kept between 120 and 260 and never larger than the usable side),
/// `UI_MINI_MAP_VIEWPORT_MARGIN_PIXELS` from the top and right edges.
pub fn ui_mini_map_viewport_for_physical_size(window_size: WindowSize) -> (viewport: MiniMapViewport)
    ensures
        viewport == spec_viewport_for_physical_size(window_size),
{
    let available_width = window_size.width.saturating_sub(SCREEN_PADDING_LEFT + SCREEN_PADDING_RIGHT);
    let available_height = window_size.height.saturating_sub(
        SCREEN_PADDING_TOP + SCREEN_PADDING_BOTTOM,
    );
    let mut available = if window_size.width <= window_size.height {
        window_size.width
    } else {
        window_size.height
    };
    if available_width < available {
        available = available_width;
    }
    if available_height < available {
        available = available_height;
    }
    let desired: u64 = (available as u64 * UI_MINI_MAP_VIEWPORT_SIZE_PERCENT + 50) / 100;
    let clamped: u32 = if desired < UI_MINI_MAP_VIEWPORT_MIN_SIZE_PIXELS as u64 {
        UI_MINI_MAP_VIEWPORT_MIN_SIZE_PIXELS
    } else if desired > UI_MINI_MAP_VIEWPORT_MAX_SIZE_PIXELS as u64 {
        UI_MINI_MAP_VIEWPORT_MAX_SIZE_PIXELS
    } else {
        desired as u32
    };
    let upper: u32 = if available >= 1 {
        available
    } else {
        1
    };
    let viewport_size = if clamped <= upper {
        clamped
    } else {
        upper
    };
    let x = window_size.width.saturating_sub(viewport_size + UI_MINI_MAP_VIEWPORT_MARGIN_PIXELS);
    let top_room = window_size.height.saturating_sub(viewport_size);
    let y = if UI_MINI_MAP_VIEWPORT_MARGIN_PIXELS <= top_room {
        UI_MINI_MAP_VIEWPORT_MARGIN_PIXELS
    } else {
        top_room
    };
    MiniMapViewport { x, y, size: viewport_size }
}

/// The mini-map viewport is a square of at least one pixel that stays
/// inside any window of at least one pixel each way; when the window is
/// wide and tall enough it keeps exactly the margin to the right edge and
/// sits the margin below the top edge.
pub proof fn lemma_viewport_fits_window(window: WindowSize)
    requires
        window.width >= 1,
        window.height >= 1,
    ensures
        ({
            let v = spec_viewport_for_physical_size(window);
            &&& 1 <= v.size <= UI_MINI_MAP_VIEWPORT_MAX_SIZE_PIXELS
            &&& v.x + v.size <= window.width
            &&& v.y + v.size <= window.height
            &&& window.width >= v.size + UI_MINI_MAP_VIEWPORT_MARGIN_PIXELS ==> v.x + v.size
                + UI_MINI_MAP_VIEWPORT_MARGIN_PIXELS == window.width
            &&& window.height >= v.size + UI_MINI_MAP_VIEWPORT_MARGIN_PIXELS ==> v.y
                == UI_MINI_MAP_VIEWPORT_MARGIN_PIXELS
        }),
{
}

/// Whether the mini-map's area outline is shown after this frame's input.
pub fn ui_mini_map_toggle_viewport_visibility(is_visible: bool, toggle_just_pressed: bool) -> (visible: bool)
    ensures
        visible == (is_visible != toggle_just_pressed),
{
    if toggle_just_pressed {
        !is_visible
    } else {
        is_visible
    }
}

/// The outline's visibility after this frame: it flips when the one input
/// of the game saw the mini-map key go down; with no input, or more than
/// one, it stays as it is.
pub fn ui_mini_map_toggle_viewport_update(is_visible: bool, inputs: &[InputState]) -> (visible: bool)
    ensures
        visible == if inputs@.len() == 1 {
            is_visible != inputs@[0].is_ui_mini_map_viewport_toggle_just_pressed
        } else {
            is_visible
        },
{
    if inputs.len() != 1 {
        return is_visible;
    }
    ui_mini_map_toggle_viewport_visibility(is_visible, inputs[0].is_ui_mini_map_viewport_toggle_just_pressed)
}

/// The point the mini-map centers on: the player's position when it follows
/// the player and there is one, else the fixed center.
pub fn ui_mini_map_target_center_from_player<T: Copy>(
    target: UIMiniMapTarget,
    fallback_center: T,
    player_translation: Option<T>,
) -> (center: T)
    ensures
        center == match (target, player_translation) {
            (UIMiniMapTarget::PlayerComponent, Some(translation)) => translation,
            _ => fallback_center,
        },
{
    match target {
        UIMiniMapTarget::FixedCenter => fallback_center,
        UIMiniMapTarget::PlayerComponent => match player_translation {
            Some(translation) => translation,
            None => fallback_center,
        },
    }
}

} // verus!
