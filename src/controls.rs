use vstd::prelude::*;
use vstd::arithmetic::power2::{pow2, lemma2_to64};

verus! {

/// Slowest camera speed, in meters per frame.
pub const MIN_FLY_SPEED: u64 = 1_000_000;

/// Fastest camera speed, in meters per frame.
pub const MAX_FLY_SPEED: u64 = 10_000_000_000;

/// Camera speed at startup, in meters per frame.
pub const INITIAL_FLY_SPEED: u64 = 30_000_000;

/// The keys that the simulation reacts to.
#[derive(Clone, Copy, Debug, PartialEq, Eq)]
pub enum Key {
    /// A number key, by its digit.
    Digit(u8),
    Escape,
    Fullscreen,
    Left,
    Right,
    Forward,
    Back,
    /// Moves the camera down the world's vertical axis.
    Descend,
    /// Moves the camera up the world's vertical axis.
    Ascend,
    Other,
}

/// A scroll, counted in whole lines or in pixels.
#[derive(Clone, Copy, Debug, PartialEq, Eq)]
pub enum ScrollDelta {
    Lines(i32),
    Pixels(i32),
}

#[derive(Clone, Copy, Debug, PartialEq, Eq)]
pub enum Event {
    KeyPressed(Key),
    KeyReleased(Key),
    Scroll(ScrollDelta),
    CloseRequested,
}

/// What the event loop does after an event.
#[derive(Clone, Copy, Debug, PartialEq, Eq)]
pub enum Action {
    Continue,
    Exit,
    ToggleFullscreen,
}

/// The movement keys that are held down.
#[derive(Clone, Copy, Debug, PartialEq, Eq)]
pub struct HeldKeys {
    pub left: bool,
    pub right: bool,
    pub forward: bool,
    pub back: bool,
    pub descend: bool,
    pub ascend: bool,
}

/// Direction of travel along each camera axis, each -1, 0 or 1: strafe
/// along the camera's right vector, forward along its direction, vertical
/// along the world's up axis.
#[derive(Clone, Copy, Debug, PartialEq, Eq)]
pub struct Movement {
    pub strafe: i8,
    pub forward: i8,
    pub vertical: i8,
}

/// The integer part of the camera state: held keys, speed (m per frame),
/// simulated seconds per frame, and whether the loop goes on.
#[derive(Clone, Copy, Debug, PartialEq, Eq)]
pub struct Controls {
    pub held: HeldKeys,
    pub fly_speed: u64,
    pub time_step: u32,
    pub running: bool,
}

/// The time step that a digit key selects: 0 for 0, else 10 · 2^(d-1) seconds.
pub open spec fn time_step_of_digit(d: int) -> Option<u32> {
    if d == 0 {
        Some(0u32)
    } else if 1 <= d <= 9 {
        Some((10 * pow2((d - 1) as nat)) as u32)
    } else {
        None
    }
}

/// The time steps that can be selected.
pub open spec fn is_time_step(t: u32) -> bool {
    t == 0 || t == 10 || t == 20 || t == 40 || t == 80 || t == 160 || t == 320 || t == 640
        || t == 1280 || t == 2560
}

pub open spec fn clamp(x: int, lo: int, hi: int) -> int {
    if x < lo {
        lo
    } else if x > hi {
        hi
    } else {
        x
    }
}

/// A scroll in 64ths of a unit: a line is an eighth, a pixel a 64th.
pub open spec fn scroll_64ths(d: ScrollDelta) -> int {
    match d {
        ScrollDelta::Lines(n) => 8 * n,
        ScrollDelta::Pixels(p) => p as int,
    }
}

/// The speed times `1 + clamp(units, -4, 4)`, rounded down, then held to
/// `[MIN_FLY_SPEED, MAX_FLY_SPEED]`.
pub open spec fn scrolled_fly_speed(speed: int, d: ScrollDelta) -> int {
    let factor = 64 + clamp(scroll_64ths(d), -256, 256);
    clamp(speed * factor / 64, MIN_FLY_SPEED as int, MAX_FLY_SPEED as int)
}

/// The held keys once `k` goes down (`down`) or up.
pub open spec fn held_after(h: HeldKeys, k: Key, down: bool) -> HeldKeys {
    HeldKeys {
        left: if k == Key::Left { down } else { h.left },
        right: if k == Key::Right { down } else { h.right },
        forward: if k == Key::Forward { down } else { h.forward },
        back: if k == Key::Back { down } else { h.back },
        descend: if k == Key::Descend { down } else { h.descend },
        ascend: if k == Key::Ascend { down } else { h.ascend },
    }
}

pub open spec fn time_step_after(t: u32, k: Key) -> u32 {
    match k {
        Key::Digit(d) => match time_step_of_digit(d as int) {
            Some(s) => s,
            None => t,
        },
        _ => t,
    }
}

/// The controls after one event.
pub open spec fn next_controls(c: Controls, e: Event) -> Controls {
    match e {
        Event::KeyPressed(k) => Controls {
            held: held_after(c.held, k, true),
            fly_speed: c.fly_speed,
            time_step: time_step_after(c.time_step, k),
            running: c.running && k != Key::Escape,
        },
        Event::KeyReleased(k) => Controls {
            held: held_after(c.held, k, false),
            fly_speed: c.fly_speed,
            time_step: c.time_step,
            running: c.running,
        },
        Event::Scroll(d) => Controls {
            held: c.held,
            fly_speed: scrolled_fly_speed(c.fly_speed as int, d) as u64,
            time_step: c.time_step,
            running: c.running,
        },
        Event::CloseRequested => Controls {
            held: c.held,
            fly_speed: c.fly_speed,
            time_step: c.time_step,
            running: false,
        },
    }
}

pub open spec fn action_of(e: Event) -> Action {
    match e {
        Event::KeyPressed(Key::Escape) => Action::Exit,
        Event::CloseRequested => Action::Exit,
        Event::KeyPressed(Key::Fullscreen) => Action::ToggleFullscreen,
        _ => Action::Continue,
    }
}

/// The controls after each of `events`, in order.
pub open spec fn run_events(c: Controls, events: Seq<Event>) -> Controls
    decreases events.len(),
{
    if events.len() == 0 {
        c
    } else {
        next_controls(run_events(c, events.drop_last()), events.last())
    }
}

/// -1, 0 or 1: the direction that a pair of opposing keys asks for.
pub open spec fn axis(negative: bool, positive: bool) -> int {
    (if positive { 1int } else { 0int }) - (if negative { 1int } else { 0int })
}

/// The time step that digit `d` selects, or `None` for a value that is no digit.
pub fn time_step_for_digit(d: u8) -> (r: Option<u32>)
    ensures
        r == time_step_of_digit(d as int),
{
    proof {
        lemma2_to64();
    }
    match d {
        0 => Some(0),
        1 => Some(10),
        2 => Some(20),
        3 => Some(40),
        4 => Some(80),
        5 => Some(160),
        6 => Some(320),
        7 => Some(640),
        8 => Some(1280),
        9 => Some(2560),
        _ => None,
    }
}

/// Whether `t` is one of the selectable time steps.
pub fn is_selectable_time_step(t: u32) -> (r: bool)
    ensures
        r == is_time_step(t),
{
    t == 0 || t == 10 || t == 20 || t == 40 || t == 80 || t == 160 || t == 320 || t == 640
        || t == 1280 || t == 2560
}

/// The camera speed after a scroll.
pub fn scroll_fly_speed(speed: u64, d: ScrollDelta) -> (r: u64)
    ensures
        r == scrolled_fly_speed(speed as int, d),
        MIN_FLY_SPEED <= r <= MAX_FLY_SPEED,
{
    let units: i64 = match d {
        ScrollDelta::Lines(n) => 8 * (n as i64),
        ScrollDelta::Pixels(p) => p as i64,
    };
    let bounded: i64 = if units < -256 {
        -256
    } else if units > 256 {
        256
    } else {
        units
    };
    let factor: i64 = 64 + bounded;
    let ghost f = factor as int;
    let ghost s = speed as int;
    if factor <= 0 {
        assert(s * f <= 0) by (nonlinear_arith)
            requires
                s >= 0,
                f <= 0,
        ;
        assert(s * f / 64 <= 0);
        return MIN_FLY_SPEED;
    }
    assert(s * f <= 18_446_744_073_709_551_615 * 320) by (nonlinear_arith)
        requires
            0 <= s <= 18_446_744_073_709_551_615,
            0 < f <= 320,
    ;
    let scaled: u128 = (speed as u128) * (factor as u128) / 64;
    if scaled < MIN_FLY_SPEED as u128 {
        MIN_FLY_SPEED
    } else if scaled > MAX_FLY_SPEED as u128 {
        MAX_FLY_SPEED
    } else {
        scaled as u64
    }
}

impl HeldKeys {
    pub fn none() -> (r: HeldKeys)
        ensures
            !r.left && !r.right && !r.forward && !r.back && !r.descend && !r.ascend,
    {
        HeldKeys {
            left: false,
            right: false,
            forward: false,
            back: false,
            descend: false,
            ascend: false,
        }
    }

    /// Records that `k` went down (`down`) or up.
    pub fn set(&mut self, k: Key, down: bool)
        ensures
            *final(self) == held_after(*old(self), k, down),
    {
        match k {
            Key::Left => self.left = down,
            Key::Right => self.right = down,
            Key::Forward => self.forward = down,
            Key::Back => self.back = down,
            Key::Descend => self.descend = down,
            Key::Ascend => self.ascend = down,
            _ => {},
        }
    }
}

fn axis_of(negative: bool, positive: bool) -> (r: i8)
    ensures
        r == axis(negative, positive),
{
    let p: i8 = if positive { 1 } else { 0 };
    let n: i8 = if negative { 1 } else { 0 };
    p - n
}

impl Controls {
    /// The speed lies in `[MIN_FLY_SPEED, MAX_FLY_SPEED]` and the time step
    /// is one of the selectable values.
    pub open spec fn wf(&self) -> bool {
        MIN_FLY_SPEED <= self.fly_speed <= MAX_FLY_SPEED && is_time_step(self.time_step)
    }

    /// The controls at startup: nothing held, the initial speed, time stopped.
    pub fn new() -> (r: Controls)
        ensures
            r.wf(),
            r.held == HeldKeys::none_spec(),
            r.fly_speed == INITIAL_FLY_SPEED,
            r.time_step == 0,
            r.running,
    {
        Controls { held: HeldKeys::none(), fly_speed: INITIAL_FLY_SPEED, time_step: 0, running: true }
    }

    /// Folds one event into the controls and says what the loop does next.
    pub fn handle(&mut self, e: Event) -> (a: Action)
        ensures
            *final(self) == next_controls(*old(self), e),
            a == action_of(e),
            old(self).wf() ==> final(self).wf(),
    {
        match e {
            Event::KeyPressed(k) => {
                proof {
                    lemma2_to64();
                }
                self.held.set(k, true);
                if let Key::Digit(d) = k {
                    if let Some(t) = time_step_for_digit(d) {
                        self.time_step = t;
                    }
                }
                match k {
                    Key::Escape => {
                        self.running = false;
                        Action::Exit
                    },
                    Key::Fullscreen => Action::ToggleFullscreen,
                    _ => Action::Continue,
                }
            },
            Event::KeyReleased(k) => {
                self.held.set(k, false);
                Action::Continue
            },
            Event::Scroll(d) => {
                self.fly_speed = scroll_fly_speed(self.fly_speed, d);
                Action::Continue
            },
            Event::CloseRequested => {
                self.running = false;
                Action::Exit
            },
        }
    }

    /// Where the held keys move the camera this frame.
    pub fn movement(&self) -> (m: Movement)
        ensures
            m.strafe == axis(self.held.left, self.held.right),
            m.forward == axis(self.held.back, self.held.forward),
            m.vertical == axis(self.held.descend, self.held.ascend),
    {
        Movement {
            strafe: axis_of(self.held.left, self.held.right),
            forward: axis_of(self.held.back, self.held.forward),
            vertical: axis_of(self.held.descend, self.held.ascend),
        }
    }
}

impl HeldKeys {
    pub open spec fn none_spec() -> HeldKeys {
        HeldKeys {
            left: false,
            right: false,
            forward: false,
            back: false,
            descend: false,
            ascend: false,
        }
    }
}

/// Whatever inputs arrive, the camera speed never leaves
/// `[MIN_FLY_SPEED, MAX_FLY_SPEED]` once it starts there.
pub proof fn lemma_fly_speed_stays_bounded(c: Controls, events: Seq<Event>)
    requires
        MIN_FLY_SPEED <= c.fly_speed <= MAX_FLY_SPEED,
    ensures
        MIN_FLY_SPEED <= run_events(c, events).fly_speed <= MAX_FLY_SPEED,
    decreases events.len(),
{
    if events.len() > 0 {
        lemma_fly_speed_stays_bounded(c, events.drop_last());
    }
}

/// Whatever keys are pressed, the time step is always one of the selectable
/// values once it starts as one.
pub proof fn lemma_time_step_stays_selectable(c: Controls, events: Seq<Event>)
    requires
        is_time_step(c.time_step),
    ensures
        is_time_step(run_events(c, events).time_step),
    decreases events.len(),
{
    if events.len() > 0 {
        lemma_time_step_stays_selectable(c, events.drop_last());
        lemma2_to64();
    }
}

} // verus!
