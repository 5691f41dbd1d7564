//! Keyboard state: which keys are down this frame and were down last frame.
use vstd::prelude::*;

verus! {

/// Number of key codes tracked.
pub const KEY_COUNT: usize = 255usize;

/// The keys down now and at the start of the previous frame, by key code.
pub struct Input {
    now_keys: [bool; 255],
    prev_keys: [bool; 255],
}

/// Whether `key` went down since the previous frame.
pub open spec fn just_pressed(now: Seq<bool>, prev: Seq<bool>, key: int) -> bool {
    now[key] && !prev[key]
}

/// Whether `key` was down last frame and still is.
pub open spec fn held(now: Seq<bool>, prev: Seq<bool>, key: int) -> bool {
    now[key] && prev[key]
}

/// Whether `key` went up since the previous frame.
pub open spec fn released(now: Seq<bool>, prev: Seq<bool>, key: int) -> bool {
    !now[key] && prev[key]
}

impl Input {
    /// The keys down now.
    pub closed spec fn now(&self) -> Seq<bool> {
        self.now_keys@
    }

    /// The keys down at the start of the previous frame.
    pub closed spec fn prev(&self) -> Seq<bool> {
        self.prev_keys@
    }

    /// Whether `key` went down since the previous frame.
    pub fn is_just_pressed(&self, key: usize) -> (r: bool)
        requires
            key < KEY_COUNT,
        ensures
            self.now().len() == KEY_COUNT,
            r == just_pressed(self.now(), self.prev(), key as int),
    {
        self.now_keys[key] && !self.prev_keys[key]
    }

    /// Whether `key` was down last frame and still is.
    pub fn is_held(&self, key: usize) -> (r: bool)
        requires
            key < KEY_COUNT,
        ensures
            r == held(self.now(), self.prev(), key as int),
    {
        self.now_keys[key] && self.prev_keys[key]
    }

    /// Whether `key` went up since the previous frame.
    pub fn was_released(&self, key: usize) -> (r: bool)
        requires
            key < KEY_COUNT,
        ensures
            r == released(self.now(), self.prev(), key as int),
    {
        !self.now_keys[key] && self.prev_keys[key]
    }

    /// Records a key going down (`pressed`) or up.
    pub fn key_event(&mut self, key: usize, pressed: bool)
        requires
            key < KEY_COUNT,
        ensures
            final(self).now() == old(self).now().update(key as int, pressed),
            final(self).prev() == old(self).prev(),
    {
        self.now_keys[key] = pressed;
    }

    /// Starts a new frame: the keys down now become last frame's keys.
    pub fn new_frame(&mut self)
        ensures
            final(self).now() == old(self).now(),
            final(self).prev() == old(self).now(),
    {
        self.prev_keys = self.now_keys;
    }
}

impl Default for Input {
    /// No key down, now or before.
    fn default() -> (r: Self)
        ensures
            r.now() == Seq::new(KEY_COUNT as nat, |i: int| false),
            r.prev() == Seq::new(KEY_COUNT as nat, |i: int| false),
    {
        let r = Input { now_keys: [false; 255], prev_keys: [false; 255] };
        assert(r.now() =~= Seq::new(KEY_COUNT as nat, |i: int| false));
        assert(r.prev() =~= Seq::new(KEY_COUNT as nat, |i: int| false));
        r
    }
}

/// Law: a key is at most one of just pressed, held and released.
pub proof fn lemma_key_states_exclusive(now: Seq<bool>, prev: Seq<bool>, key: int)
    ensures
        !(just_pressed(now, prev, key) && held(now, prev, key)),
        !(just_pressed(now, prev, key) && released(now, prev, key)),
        !(held(now, prev, key) && released(now, prev, key)),
        just_pressed(now, prev, key) || held(now, prev, key) == now[key],
{
}

/// Law: right after a new frame starts, no key is just pressed or released;
/// the keys down are held.
pub proof fn lemma_new_frame_settles(before: Input, after: Input, key: int)
    requires
        after.prev() == before.now(),
        after.now() == before.now(),
    ensures
        !just_pressed(after.now(), after.prev(), key),
        !released(after.now(), after.prev(), key),
        held(after.now(), after.prev(), key) == before.now()[key],
{
}

/// Law: a key that goes down after a new frame has started is just pressed
/// exactly when it was up at the end of the previous frame, and goes up
/// again releases it exactly when it was down then.
pub proof fn lemma_press_after_frame(settled: Input, pressed: Input, key: int)
    requires
        settled.prev() == settled.now(),
        0 <= key < settled.now().len(),
        pressed.now() == settled.now().update(key, true),
        pressed.prev() == settled.prev(),
    ensures
        just_pressed(pressed.now(), pressed.prev(), key) == !settled.now()[key],
        held(pressed.now(), pressed.prev(), key) == settled.now()[key],
{
}

} // verus!
