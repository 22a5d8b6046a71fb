use vstd::prelude::*;

verus! {

/// Pixels the view moves per frame while a pan key is held.
pub const PAN_STEP: i64 = 10;

/// The largest zoom, in thousandths.
pub const ZOOM_MAX_MILLI: i64 = 5000;

/// The zoom a view starts with, in thousandths.
pub const ZOOM_START_MILLI: i64 = 10;

/// A pan direction.
#[derive(Clone, Copy, Debug, PartialEq, Eq, Structural)]
pub enum Direction {
    Up,
    Down,
    Left,
    Right,
}

/// One input event, as the windowing layer reports it.
#[derive(Clone, Copy, Debug, PartialEq, Eq, Structural)]
pub enum InputEvent {
    /// The window was closed or escape was pressed.
    Quit,
    /// The pause key was pressed.
    TogglePause,
    /// A pan key went down.
    Press(Direction),
    /// A pan key went up.
    Release(Direction),
    /// The wheel moved by this many notches; each notch is one thousandth of zoom.
    Wheel(i32),
}

/// What the run loop must do after an event.
#[derive(Clone, Copy, Debug, PartialEq, Eq, Structural)]
pub enum Command {
    Continue,
    Quit,
    TogglePause,
}

/// `v` kept within `lo..=hi`.
pub open spec fn clamped(v: int, lo: int, hi: int) -> int {
    if v < lo {
        lo
    } else if v > hi {
        hi
    } else {
        v
    }
}

/// Relies on num::clamp: for `min <= max` it returns `min` below the range,
/// `max` above it and the input itself within it.
#[verifier::external_body]
fn clamp_i64(input: i64, min: i64, max: i64) -> (r: i64)
    requires
        min <= max,
    ensures
        r == clamped(input as int, min as int, max as int),
{
    num::clamp(input, min, max)
}

/// The view's state: which pan keys are held, the pan offset in pixels and the
/// zoom in thousandths.
#[derive(Clone, Copy, Debug, PartialEq, Eq, Structural)]
pub struct Camera {
    pub up: bool,
    pub down: bool,
    pub left: bool,
    pub right: bool,
    pub offset_x: i64,
    pub offset_y: i64,
    pub zoom_milli: i64,
}

/// The net per-frame shift of an axis from its two opposite keys.
pub open spec fn axis_shift(plus: bool, minus: bool) -> int {
    (if plus { PAN_STEP as int } else { 0int }) - (if minus { PAN_STEP as int } else { 0int })
}

impl Camera {
    /// The zoom lies within `0..=ZOOM_MAX_MILLI`.
    pub open spec fn wf(&self) -> bool {
        0 <= self.zoom_milli <= ZOOM_MAX_MILLI
    }

    /// A view with no key held, no offset and the starting zoom.
    pub fn new() -> (r: Camera)
        ensures
            r.wf(),
            !r.up && !r.down && !r.left && !r.right,
            r.offset_x == 0 && r.offset_y == 0,
            r.zoom_milli == ZOOM_START_MILLI,
    {
        Camera {
            up: false,
            down: false,
            left: false,
            right: false,
            offset_x: 0,
            offset_y: 0,
            zoom_milli: ZOOM_START_MILLI,
        }
    }

    fn set_key(&mut self, dir: Direction, held: bool)
        ensures
            final(self).offset_x == old(self).offset_x,
            final(self).offset_y == old(self).offset_y,
            final(self).zoom_milli == old(self).zoom_milli,
            final(self).up == (if dir == Direction::Up { held } else { old(self).up }),
            final(self).down == (if dir == Direction::Down { held } else { old(self).down }),
            final(self).left == (if dir == Direction::Left { held } else { old(self).left }),
            final(self).right == (if dir == Direction::Right { held } else { old(self).right }),
    {
        match dir {
            Direction::Up => self.up = held,
            Direction::Down => self.down = held,
            Direction::Left => self.left = held,
            Direction::Right => self.right = held,
        }
    }

    /// Takes one event. Key events set or clear the held flag of their
    /// direction, a wheel event moves the zoom by its notches and clamps it to
    /// `0..=ZOOM_MAX_MILLI`; quit and pause are handed back to the run loop and
    /// leave the view as it is.
    pub fn handle(&mut self, event: InputEvent) -> (r: Command)
        requires
            old(self).wf(),
        ensures
            final(self).wf(),
            r == (match event {
                InputEvent::Quit => Command::Quit,
                InputEvent::TogglePause => Command::TogglePause,
                _ => Command::Continue,
            }),
            final(self).offset_x == old(self).offset_x,
            final(self).offset_y == old(self).offset_y,
            final(self).zoom_milli == (match event {
                InputEvent::Wheel(y) => clamped(
                    old(self).zoom_milli + y,
                    0,
                    ZOOM_MAX_MILLI as int,
                ) as i64,
                _ => old(self).zoom_milli,
            }),
            final(self).up == (match event {
                InputEvent::Press(Direction::Up) => true,
                InputEvent::Release(Direction::Up) => false,
                _ => old(self).up,
            }),
            final(self).down == (match event {
                InputEvent::Press(Direction::Down) => true,
                InputEvent::Release(Direction::Down) => false,
                _ => old(self).down,
            }),
            final(self).left == (match event {
                InputEvent::Press(Direction::Left) => true,
                InputEvent::Release(Direction::Left) => false,
                _ => old(self).left,
            }),
            final(self).right == (match event {
                InputEvent::Press(Direction::Right) => true,
                InputEvent::Release(Direction::Right) => false,
                _ => old(self).right,
            }),
    {
        match event {
            InputEvent::Quit => Command::Quit,
            InputEvent::TogglePause => Command::TogglePause,
            InputEvent::Press(dir) => {
                self.set_key(dir, true);
                Command::Continue
            },
            InputEvent::Release(dir) => {
                self.set_key(dir, false);
                Command::Continue
            },
            InputEvent::Wheel(y) => {
                self.zoom_milli = clamp_i64(self.zoom_milli + y as i64, 0, ZOOM_MAX_MILLI);
                Command::Continue
            },
        }
    }

    /// Moves the view by one frame's worth of the held keys: up adds and down
    /// subtracts `PAN_STEP` on the vertical offset, left adds and right
    /// subtracts it on the horizontal one. An offset saturates at the bounds of
    /// `i64`.
    pub fn pan(&mut self)
        ensures
            final(self).offset_x == clamped(
                old(self).offset_x + axis_shift(old(self).left, old(self).right),
                i64::MIN as int,
                i64::MAX as int,
            ),
            final(self).offset_y == clamped(
                old(self).offset_y + axis_shift(old(self).up, old(self).down),
                i64::MIN as int,
                i64::MAX as int,
            ),
            final(self).up == old(self).up,
            final(self).down == old(self).down,
            final(self).left == old(self).left,
            final(self).right == old(self).right,
            final(self).zoom_milli == old(self).zoom_milli,
    {
        self.offset_x = shift_saturating(self.offset_x, self.left, self.right);
        self.offset_y = shift_saturating(self.offset_y, self.up, self.down);
    }
}

fn shift_saturating(v: i64, plus: bool, minus: bool) -> (r: i64)
    ensures
        r == clamped(v + axis_shift(plus, minus), i64::MIN as int, i64::MAX as int),
{
    let d: i64 = if plus == minus {
        0
    } else if plus {
        PAN_STEP
    } else {
        -PAN_STEP
    };
    if d > 0 && v > i64::MAX - d {
        i64::MAX
    } else if d < 0 && v < i64::MIN - d {
        i64::MIN
    } else {
        v + d
    }
}

} // verus!
