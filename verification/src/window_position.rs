//! Remembering where the game window was: the saved position's text format,
//! whether a saved position is still on a connected monitor, and the
//! decision, at start-up, to restore or forget it.

use vstd::prelude::*;

use crate::text::{
    all_digits, chars_of, decimal_text, digits_of, lemma_digits_of_value,
    lemma_parse_decimal_text, lemma_trim_end_cut, lemma_trim_start_skip, parse_i32_chars,
    push_decimal_text, spec_is_whitespace, spec_parse_i32, string_from_chars, trim, trim_bounds,
};

verus! {

/// At least this many pixels of the window (or the whole window, if it is
/// smaller) must lie on one monitor, in each direction, to count as visible.
pub const MIN_VISIBLE_WINDOW_PIXELS: u32 = 64;

/// Width of the window the game asks for.
pub const TARGET_RESOLUTION_WIDTH: u32 = 1280;

/// Height of the window the game asks for.
pub const TARGET_RESOLUTION_HEIGHT: u32 = 720;

/// A window's top-left corner in desktop pixels.
#[derive(Clone, Copy, Debug, PartialEq, Eq, Structural)]
pub struct WindowPosition {
    pub x: i32,
    pub y: i32,
}

/// A window's size in physical pixels.
#[derive(Clone, Copy, Debug, PartialEq, Eq, Structural)]
pub struct WindowSize {
    pub width: u32,
    pub height: u32,
}

/// The desktop area that one monitor covers, in physical pixels.
#[derive(Clone, Copy, Debug, PartialEq, Eq, Structural)]
pub struct MonitorArea {
    pub x: i32,
    pub y: i32,
    pub width: u32,
    pub height: u32,
}

/// The size of the window the game asks for.
pub fn target_resolution() -> (size: WindowSize)
    ensures
        size.width == TARGET_RESOLUTION_WIDTH,
        size.height == TARGET_RESOLUTION_HEIGHT,
{
    WindowSize { width: TARGET_RESOLUTION_WIDTH, height: TARGET_RESOLUTION_HEIGHT }
}

pub open spec fn max_int(a: int, b: int) -> int {
    if a >= b {
        a
    } else {
        b
    }
}

pub open spec fn min_int(a: int, b: int) -> int {
    if a <= b {
        a
    } else {
        b
    }
}

/// How many pixels of the span `[window_min, window_min + window_len)` fall
/// inside `[monitor_min, monitor_min + monitor_len)`; negative when they are
/// apart.
pub open spec fn overlap(window_min: int, window_len: int, monitor_min: int, monitor_len: int) -> int {
    min_int(window_min + window_len, monitor_min + monitor_len) - max_int(window_min, monitor_min)
}

/// How much of a window side of `len` pixels must be on a monitor.
pub open spec fn required_visible(len: u32) -> int {
    max_int(min_int(len as int, MIN_VISIBLE_WINDOW_PIXELS as int), 1)
}

/// Whether enough of a window at `position` of `size` lies on `monitor`.
pub open spec fn spec_visible_on(position: WindowPosition, size: WindowSize, monitor: MonitorArea) -> bool {
    &&& overlap(position.x as int, max_int(size.width as int, 1), monitor.x as int, monitor.width as int)
        >= required_visible(size.width)
    &&& overlap(position.y as int, max_int(size.height as int, 1), monitor.y as int, monitor.height as int)
        >= required_visible(size.height)
}

/// Whether enough of the window lies on some monitor.
pub open spec fn spec_position_visible(
    position: WindowPosition,
    size: WindowSize,
    monitors: Seq<MonitorArea>,
) -> bool {
    exists|i: int| 0 <= i < monitors.len() && spec_visible_on(position, size, #[trigger] monitors[i])
}

/// Whether a window at `position` of `window_size` would show at least
/// `MIN_VISIBLE_WINDOW_PIXELS` (or its whole side, if smaller) in both
/// directions on one of `monitors`.
pub fn is_custom_window_position_visible(
    position: WindowPosition,
    window_size: WindowSize,
    monitors: &[MonitorArea],
) -> (visible: bool)
    ensures
        visible == spec_position_visible(position, window_size, monitors@),
{
    let window_width: i64 = if window_size.width >= 1 {
        window_size.width as i64
    } else {
        1
    };
    let window_height: i64 = if window_size.height >= 1 {
        window_size.height as i64
    } else {
        1
    };
    let window_min_x = position.x as i64;
    let window_min_y = position.y as i64;
    let window_max_x = window_min_x + window_width;
    let window_max_y = window_min_y + window_height;
    let required_width: i64 = if window_size.width == 0 {
        1
    } else if window_size.width < MIN_VISIBLE_WINDOW_PIXELS {
        window_size.width as i64
    } else {
        MIN_VISIBLE_WINDOW_PIXELS as i64
    };
    let required_height: i64 = if window_size.height == 0 {
        1
    } else if window_size.height < MIN_VISIBLE_WINDOW_PIXELS {
        window_size.height as i64
    } else {
        MIN_VISIBLE_WINDOW_PIXELS as i64
    };
    let mut i: usize = 0;
    while i < monitors.len()
        invariant
            i <= monitors@.len(),
            window_width == max_int(window_size.width as int, 1),
            window_height == max_int(window_size.height as int, 1),
            window_min_x == position.x,
            window_min_y == position.y,
            window_max_x == window_min_x + window_width,
            window_max_y == window_min_y + window_height,
            required_width == required_visible(window_size.width),
            required_height == required_visible(window_size.height),
            forall|j: int| 0 <= j < i ==> !spec_visible_on(position, window_size, #[trigger] monitors@[j]),
        decreases monitors@.len() - i,
    {
        let monitor = monitors[i];
        let monitor_min_x = monitor.x as i64;
        let monitor_min_y = monitor.y as i64;
        let monitor_max_x = monitor_min_x + monitor.width as i64;
        let monitor_max_y = monitor_min_y + monitor.height as i64;
        let visible_width = (if window_max_x <= monitor_max_x {
            window_max_x
        } else {
            monitor_max_x
        }) - (if window_min_x >= monitor_min_x {
            window_min_x
        } else {
            monitor_min_x
        });
        let visible_height = (if window_max_y <= monitor_max_y {
            window_max_y
        } else {
            monitor_max_y
        }) - (if window_min_y >= monitor_min_y {
            window_min_y
        } else {
            monitor_min_y
        });
        if visible_width >= required_width && visible_height >= required_height {
            assert(spec_visible_on(position, window_size, monitors@[i as int]));
            return true;
        }
        i = i + 1;
    }
    false
}

/// Whether `k` is the position of the one and only comma in `t`.
pub open spec fn is_single_comma_at(t: Seq<char>, k: int) -> bool {
    &&& 0 <= k < t.len()
    &&& t[k] == ','
    &&& forall|j: int| 0 <= j < t.len() && j != k ==> t[j] != ','
}

/// The position that saved text holds: after trimming, exactly two
/// comma-separated fields, each an `i32` with optional surrounding
/// whitespace. Any other text holds no position.
pub open spec fn spec_parse_custom_window_position(contents: Seq<char>) -> Option<WindowPosition> {
    let t = trim(contents);
    if exists|k: int| is_single_comma_at(t, k) {
        let k = choose|k: int| is_single_comma_at(t, k);
        match (
            spec_parse_i32(trim(t.subrange(0, k))),
            spec_parse_i32(trim(t.subrange(k + 1, t.len() as int))),
        ) {
            (Some(x), Some(y)) => Some(WindowPosition { x, y }),
            _ => None,
        }
    } else {
        None
    }
}

/// Reads a saved window position from the text of the position file.
#[verifier::loop_isolation(false)]
pub fn parse_custom_window_position(contents: &str) -> (position: Option<WindowPosition>)
    ensures
        position == spec_parse_custom_window_position(contents@),
{
    let chars = chars_of(contents);
    let s = chars.as_slice();
    let (a, b) = trim_bounds(s, 0, chars.len());
    let ghost t = s@.subrange(a as int, b as int);
    assert(s@.subrange(0, chars@.len() as int) =~= contents@);
    let mut k = a;
    while k < b && s[k] != ','
        invariant
            a <= k <= b,
            forall|j: int| a <= j < k ==> s@[j] != ',',
        decreases b - k,
    {
        k = k + 1;
    }
    if k == b {
        assert forall|m: int| !is_single_comma_at(t, m) by {
            if 0 <= m < t.len() {
                assert(t[m] == s@[a + m]);
            }
        }
        return None;
    }
    let mut j = k + 1;
    while j < b && s[j] != ','
        invariant
            k < j <= b,
            forall|i: int| k < i < j ==> s@[i] != ',',
        decreases b - j,
    {
        j = j + 1;
    }
    if j < b {
        assert forall|m: int| !is_single_comma_at(t, m) by {
            if is_single_comma_at(t, m) {
                assert(t[k - a] == ',');
                assert(t[j - a] == ',');
            }
        }
        return None;
    }
    let ghost c = k - a;
    assert(is_single_comma_at(t, c)) by {
        assert forall|i: int| 0 <= i < t.len() && i != c implies t[i] != ',' by {
            assert(t[i] == s@[a + i]);
        }
    }
    assert forall|m: int| is_single_comma_at(t, m) implies m == c by {
        assert(t[c] == ',');
    }
    assert(t.subrange(0, c) =~= s@.subrange(a as int, k as int));
    assert(t.subrange(c + 1, t.len() as int) =~= s@.subrange(k + 1, b as int));
    let (xa, xb) = trim_bounds(s, a, k);
    let (ya, yb) = trim_bounds(s, k + 1, b);
    match parse_i32_chars(s, xa, xb) {
        Some(x) => match parse_i32_chars(s, ya, yb) {
            Some(y) => Some(WindowPosition { x, y }),
            None => None,
        },
        None => None,
    }
}

/// The text saved for a window position: `x,y` and a line break.
pub open spec fn spec_format_custom_window_position(position: WindowPosition) -> Seq<char> {
    decimal_text(position.x as int) + seq![','] + decimal_text(position.y as int) + seq!['\n']
}

/// The text to save for a window position.
pub fn format_custom_window_position(position: WindowPosition) -> (text: String)
    ensures
        text@ == spec_format_custom_window_position(position),
{
    let mut chars: Vec<char> = Vec::new();
    push_decimal_text(&mut chars, position.x);
    chars.push(',');
    push_decimal_text(&mut chars, position.y);
    chars.push('\n');
    string_from_chars(&chars)
}

/// Decimal text is one or more digits, perhaps after a minus sign, so it
/// holds no comma and no whitespace and trims to itself.
proof fn lemma_decimal_text_shape(v: i32)
    ensures
        decimal_text(v as int).len() >= 1,
        forall|i: int| 0 <= i < decimal_text(v as int).len() ==> {
            let c = #[trigger] decimal_text(v as int)[i];
            c != ',' && !spec_is_whitespace(c)
        },
        trim(decimal_text(v as int)) == decimal_text(v as int),
{
    let t = decimal_text(v as int);
    let m: nat = if v < 0 {
        (-(v as int)) as nat
    } else {
        v as nat
    };
    lemma_digits_of_value(m);
    let d = digits_of(m);
    assert(all_digits(d));
    assert forall|i: int| 0 <= i < t.len() implies ({
        let c = #[trigger] t[i];
        c != ',' && !spec_is_whitespace(c)
    }) by {
        if v < 0 && i > 0 {
            assert(t[i] == d[i - 1]);
        }
    }
    lemma_trim_start_skip(t, 0);
    assert(t.subrange(0, t.len() as int) =~= t);
    lemma_trim_end_cut(t, t.len() as int);
}

/// Reading back the text saved for a position gives that position.
pub proof fn lemma_window_position_text_round_trip(position: WindowPosition)
    ensures
        spec_parse_custom_window_position(spec_format_custom_window_position(position))
            == Some(position),
{
    let dx = decimal_text(position.x as int);
    let dy = decimal_text(position.y as int);
    lemma_decimal_text_shape(position.x);
    lemma_decimal_text_shape(position.y);
    lemma_parse_decimal_text(position.x);
    lemma_parse_decimal_text(position.y);
    let f = spec_format_custom_window_position(position);
    let t = dx + seq![','] + dy;
    assert(f =~= t.push('\n'));
    assert(!spec_is_whitespace(f[0])) by {
        assert(f[0] == dx[0]);
    }
    lemma_trim_start_skip(f, 0);
    assert(f.subrange(0, f.len() as int) =~= f);
    assert(!spec_is_whitespace(f[f.len() - 2])) by {
        assert(f[f.len() - 2] == dy[dy.len() - 1]);
    }
    lemma_trim_end_cut(f, f.len() - 1);
    assert(f.subrange(0, f.len() - 1) =~= t);
    assert(trim(f) == t);
    let k = dx.len() as int;
    assert(is_single_comma_at(t, k)) by {
        assert forall|j: int| 0 <= j < t.len() && j != k implies t[j] != ',' by {
            if j < k {
                assert(t[j] == dx[j]);
            } else {
                assert(t[j] == dy[j - k - 1]);
            }
        }
    }
    assert forall|m: int| is_single_comma_at(t, m) implies m == k by {
        assert(t[k] == ',');
    }
    assert(t.subrange(0, k) =~= dx);
    assert(t.subrange(k + 1, t.len() as int) =~= dy);
}

/// What the start-up restore of the saved window position does this frame.
#[derive(Clone, Copy, Debug, PartialEq, Eq, Structural)]
pub enum CustomWindowRestoreStep {
    /// The restore already happened: nothing to do.
    AlreadyDone,
    /// No position was saved: mark the restore as done.
    NothingSaved,
    /// Monitors or the primary window are not known yet: try again next frame.
    Wait,
    /// Move the window to the saved position and mark the restore as done.
    Restore(WindowPosition),
    /// The saved position is off every monitor: forget it, delete the saved
    /// file and mark the restore as done.
    Forget,
}

/// The restore decision, from whether it already ran, the saved position,
/// the window size the game asks for, the connected monitors and whether
/// the primary window exists.
pub open spec fn spec_custom_window_restore_step(
    restore_completed: bool,
    saved_position: Option<WindowPosition>,
    target_resolution: WindowSize,
    monitors: Seq<MonitorArea>,
    has_primary_window: bool,
) -> CustomWindowRestoreStep {
    if restore_completed {
        CustomWindowRestoreStep::AlreadyDone
    } else if saved_position is None {
        CustomWindowRestoreStep::NothingSaved
    } else if monitors.len() == 0 || !has_primary_window {
        CustomWindowRestoreStep::Wait
    } else if spec_position_visible(saved_position->0, target_resolution, monitors) {
        CustomWindowRestoreStep::Restore(saved_position->0)
    } else {
        CustomWindowRestoreStep::Forget
    }
}

/// Decides what the start-up restore of the saved window position does.
pub fn custom_window_restore_step(
    restore_completed: bool,
    saved_position: Option<WindowPosition>,
    target_resolution: WindowSize,
    monitors: &[MonitorArea],
    has_primary_window: bool,
) -> (step: CustomWindowRestoreStep)
    ensures
        step == spec_custom_window_restore_step(
            restore_completed,
            saved_position,
            target_resolution,
            monitors@,
            has_primary_window,
        ),
{
    if restore_completed {
        return CustomWindowRestoreStep::AlreadyDone;
    }
    let position = match saved_position {
        Some(position) => position,
        None => {
            return CustomWindowRestoreStep::NothingSaved;
        },
    };
    if monitors.len() == 0 || !has_primary_window {
        return CustomWindowRestoreStep::Wait;
    }
    if is_custom_window_position_visible(position, target_resolution, monitors) {
        CustomWindowRestoreStep::Restore(position)
    } else {
        CustomWindowRestoreStep::Forget
    }
}

/// The positions to remember, in order, from the window-moved events of a
/// frame: those of the primary window.
pub open spec fn spec_tracked_positions(primary_window: u64, moves: Seq<(u64, WindowPosition)>) -> Seq<
    WindowPosition,
>
    decreases moves.len(),
{
    if moves.len() == 0 {
        Seq::empty()
    } else {
        let rest = spec_tracked_positions(primary_window, moves.drop_last());
        if moves.last().0 == primary_window {
            rest.push(moves.last().1)
        } else {
            rest
        }
    }
}

/// The positions of `primary_window` among window-moved events, in order;
/// each is remembered and saved, so the last one is the one that stays.
pub fn custom_window_tracked_positions(primary_window: u64, moves: &[(u64, WindowPosition)]) -> (positions: Vec<WindowPosition>)
    ensures
        positions@ == spec_tracked_positions(primary_window, moves@),
{
    let mut positions: Vec<WindowPosition> = Vec::new();
    let mut i: usize = 0;
    while i < moves.len()
        invariant
            i <= moves@.len(),
            positions@ == spec_tracked_positions(primary_window, moves@.subrange(0, i as int)),
        decreases moves@.len() - i,
    {
        let (window, position) = moves[i];
        assert(moves@.subrange(0, i + 1).drop_last() =~= moves@.subrange(0, i as int));
        if window == primary_window {
            positions.push(position);
        }
        i = i + 1;
    }
    assert(moves@.subrange(0, i as int) =~= moves@);
    positions
}

/// With no monitor connected no position is visible; a window lying wholly
/// on one monitor is visible; connecting another monitor never hides a
/// visible position.
pub proof fn lemma_visibility_laws(
    position: WindowPosition,
    size: WindowSize,
    monitors: Seq<MonitorArea>,
    extra: MonitorArea,
)
    ensures
        !spec_position_visible(position, size, Seq::empty()),
        spec_position_visible(position, size, monitors) ==> spec_position_visible(
            position,
            size,
            monitors.push(extra),
        ),
        (position.x >= extra.x && position.x + max_int(size.width as int, 1) <= extra.x
            + extra.width && position.y >= extra.y && position.y + max_int(size.height as int, 1)
            <= extra.y + extra.height) ==> spec_position_visible(position, size, monitors.push(extra)),
{
    if spec_position_visible(position, size, monitors) {
        let i = choose|i: int| 0 <= i < monitors.len() && spec_visible_on(position, size, #[trigger] monitors[i]);
        assert(monitors.push(extra)[i] == monitors[i]);
    }
    assert(monitors.push(extra)[monitors.len() as int] == extra);
}

/// Whether the pixel run `[start, start + len)` lies inside `[lo, lo + size)`.
pub open spec fn run_inside(start: int, len: int, lo: int, size: int) -> bool {
    lo <= start && start + len <= lo + size
}

/// Whether some run of `req` pixels lies inside both `[lo1, lo1 + len1)`
/// and `[lo2, lo2 + len2)`.
pub open spec fn share_run(lo1: int, len1: int, lo2: int, len2: int, req: int) -> bool {
    exists|a: int| #[trigger] run_inside(a, req, lo1, len1) && run_inside(a, req, lo2, len2)
}

/// Whether a window at `position` of `size` and `monitor` share, in each
/// direction, a run of pixels as long as the window must show: the whole
/// side of a window narrower than `MIN_VISIBLE_WINDOW_PIXELS` (one pixel for
/// an empty side), else `MIN_VISIBLE_WINDOW_PIXELS`. A side of zero pixels
/// counts as one pixel wide.
pub open spec fn shares_visible_runs(position: WindowPosition, size: WindowSize, monitor: MonitorArea) -> bool {
    let w: int = if size.width == 0 { 1 } else { size.width as int };
    let h: int = if size.height == 0 { 1 } else { size.height as int };
    let rw: int = if size.width == 0 {
        1
    } else if size.width < MIN_VISIBLE_WINDOW_PIXELS {
        size.width as int
    } else {
        MIN_VISIBLE_WINDOW_PIXELS as int
    };
    let rh: int = if size.height == 0 {
        1
    } else if size.height < MIN_VISIBLE_WINDOW_PIXELS {
        size.height as int
    } else {
        MIN_VISIBLE_WINDOW_PIXELS as int
    };
    &&& share_run(position.x as int, w, monitor.x as int, monitor.width as int, rw)
    &&& share_run(position.y as int, h, monitor.y as int, monitor.height as int, rh)
}

/// The pixels a window shows on a monitor, one direction at a time: a run
/// of `req` pixels lies in both spans exactly when the two spans overlap by
/// at least `req` pixels.
proof fn lemma_overlap_is_shared_run(w_lo: int, w_len: int, m_lo: int, m_len: int, req: int)
    ensures
        (overlap(w_lo, w_len, m_lo, m_len) >= req) <==> share_run(w_lo, w_len, m_lo, m_len, req),
{
    if overlap(w_lo, w_len, m_lo, m_len) >= req {
        let a = max_int(w_lo, m_lo);
        assert(run_inside(a, req, w_lo, w_len) && run_inside(a, req, m_lo, m_len));
    }
}

/// A saved position is visible exactly when some connected monitor and the
/// window share, horizontally and vertically, a run of pixels as long as
/// the window must show; so a window lying wholly to the left or right of
/// every monitor (or wholly above or below every one) is not visible. At
/// start-up such a position is forgotten and a visible one restored as it
/// is, once a monitor and the primary window are known.
pub proof fn lemma_visible_means_shared_runs(
    position: WindowPosition,
    size: WindowSize,
    monitors: Seq<MonitorArea>,
)
    ensures
        spec_position_visible(position, size, monitors) <==> (exists|i: int|
            0 <= i < monitors.len() && shares_visible_runs(position, size, #[trigger] monitors[i])),
        (forall|i: int|
            0 <= i < monitors.len() ==> (position.x + (if size.width == 0 { 1 } else { size.width as int })
                <= #[trigger] monitors[i].x || monitors[i].x + monitors[i].width <= position.x))
            ==> !spec_position_visible(position, size, monitors),
        (forall|i: int|
            0 <= i < monitors.len() ==> (position.y + (if size.height == 0 { 1 } else { size.height as int })
                <= #[trigger] monitors[i].y || monitors[i].y + monitors[i].height <= position.y))
            ==> !spec_position_visible(position, size, monitors),
        monitors.len() > 0 ==> spec_custom_window_restore_step(false, Some(position), size, monitors, true)
            == if exists|i: int|
            0 <= i < monitors.len() && shares_visible_runs(position, size, #[trigger] monitors[i]) {
            CustomWindowRestoreStep::Restore(position)
        } else {
            CustomWindowRestoreStep::Forget
        },
{
    let w: int = if size.width == 0 { 1 } else { size.width as int };
    let h: int = if size.height == 0 { 1 } else { size.height as int };
    assert(w == max_int(size.width as int, 1));
    assert(h == max_int(size.height as int, 1));
    assert(required_visible(size.width) == if size.width == 0 {
        1
    } else if size.width < MIN_VISIBLE_WINDOW_PIXELS {
        size.width as int
    } else {
        MIN_VISIBLE_WINDOW_PIXELS as int
    });
    assert(required_visible(size.height) == if size.height == 0 {
        1
    } else if size.height < MIN_VISIBLE_WINDOW_PIXELS {
        size.height as int
    } else {
        MIN_VISIBLE_WINDOW_PIXELS as int
    });
    assert forall|i: int| 0 <= i < monitors.len() implies (spec_visible_on(
        position,
        size,
        #[trigger] monitors[i],
    ) <==> shares_visible_runs(position, size, monitors[i])) by {
        let m = monitors[i];
        lemma_overlap_is_shared_run(
            position.x as int,
            w,
            m.x as int,
            m.width as int,
            required_visible(size.width),
        );
        lemma_overlap_is_shared_run(
            position.y as int,
            h,
            m.y as int,
            m.height as int,
            required_visible(size.height),
        );
    }
    if spec_position_visible(position, size, monitors) {
        let i = choose|i: int| 0 <= i < monitors.len() && spec_visible_on(position, size, #[trigger] monitors[i]);
        assert(shares_visible_runs(position, size, monitors[i]));
    }
    if exists|i: int| 0 <= i < monitors.len() && shares_visible_runs(position, size, #[trigger] monitors[i]) {
        let i = choose|i: int| 0 <= i < monitors.len() && shares_visible_runs(position, size, #[trigger] monitors[i]);
        assert(spec_visible_on(position, size, monitors[i]));
    }
    assert((forall|i: int|
        0 <= i < monitors.len() ==> (position.x + w <= #[trigger] monitors[i].x || monitors[i].x
            + monitors[i].width <= position.x)) ==> !spec_position_visible(position, size, monitors)) by {
        if (forall|i: int|
            0 <= i < monitors.len() ==> (position.x + w <= #[trigger] monitors[i].x || monitors[i].x
                + monitors[i].width <= position.x)) && spec_position_visible(position, size, monitors) {
            let i = choose|i: int| 0 <= i < monitors.len() && spec_visible_on(position, size, #[trigger] monitors[i]);
            assert(position.x + w <= monitors[i].x || monitors[i].x + monitors[i].width <= position.x);
        }
    }
    assert((forall|i: int|
        0 <= i < monitors.len() ==> (position.y + h <= #[trigger] monitors[i].y || monitors[i].y
            + monitors[i].height <= position.y)) ==> !spec_position_visible(position, size, monitors)) by {
        if (forall|i: int|
            0 <= i < monitors.len() ==> (position.y + h <= #[trigger] monitors[i].y || monitors[i].y
                + monitors[i].height <= position.y)) && spec_position_visible(position, size, monitors) {
            let i = choose|i: int| 0 <= i < monitors.len() && spec_visible_on(position, size, #[trigger] monitors[i]);
            assert(position.y + h <= monitors[i].y || monitors[i].y + monitors[i].height <= position.y);
        }
    }
}

} // verus!
