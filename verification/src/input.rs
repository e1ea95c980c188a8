//! The keys the simulation reads and the snapshot it gets of them each tick.

use vstd::prelude::*;

verus! {

/// The keys that the simulation reads.
#[derive(Clone, Copy, PartialEq, Eq, Structural, Hash, Debug)]
pub enum Key {
    /// Walk up.
    W,
    /// Walk left.
    A,
    /// Walk down.
    S,
    /// Walk right.
    D,
    /// Previous skin.
    LeftBracket,
    /// Next skin.
    RightBracket,
}

/// A set of keys.
#[derive(Clone, Copy, PartialEq, Eq, Structural, Debug)]
pub struct KeySet {
    pub w: bool,
    pub a: bool,
    pub s: bool,
    pub d: bool,
    pub left_bracket: bool,
    pub right_bracket: bool,
}

impl KeySet {
    /// Whether `key` is in the set.
    pub open spec fn has(self, key: Key) -> bool {
        match key {
            Key::W => self.w,
            Key::A => self.a,
            Key::S => self.s,
            Key::D => self.d,
            Key::LeftBracket => self.left_bracket,
            Key::RightBracket => self.right_bracket,
        }
    }

    /// This set with `key` put in or taken out.
    pub open spec fn with(self, key: Key, present: bool) -> KeySet {
        match key {
            Key::W => KeySet { w: present, ..self },
            Key::A => KeySet { a: present, ..self },
            Key::S => KeySet { s: present, ..self },
            Key::D => KeySet { d: present, ..self },
            Key::LeftBracket => KeySet { left_bracket: present, ..self },
            Key::RightBracket => KeySet { right_bracket: present, ..self },
        }
    }

    /// The set without keys.
    pub open spec fn spec_empty() -> KeySet {
        KeySet { w: false, a: false, s: false, d: false, left_bracket: false, right_bracket: false }
    }

    /// The set without keys.
    pub fn empty() -> (set: KeySet)
        ensures
            set == Self::spec_empty(),
    {
        KeySet { w: false, a: false, s: false, d: false, left_bracket: false, right_bracket: false }
    }

    /// Whether `key` is in the set.
    pub fn contains(&self, key: Key) -> (b: bool)
        ensures
            b == self.has(key),
    {
        match key {
            Key::W => self.w,
            Key::A => self.a,
            Key::S => self.s,
            Key::D => self.d,
            Key::LeftBracket => self.left_bracket,
            Key::RightBracket => self.right_bracket,
        }
    }

    /// Puts `key` into the set or takes it out.
    pub fn put(&mut self, key: Key, present: bool)
        ensures
            *final(self) == old(self).with(key, present),
    {
        match key {
            Key::W => {
                self.w = present;
            },
            Key::A => {
                self.a = present;
            },
            Key::S => {
                self.s = present;
            },
            Key::D => {
                self.d = present;
            },
            Key::LeftBracket => {
                self.left_bracket = present;
            },
            Key::RightBracket => {
                self.right_bracket = present;
            },
        }
    }
}

/// The state of the keyboard: which keys are held down, and which of them
/// went down since the last tick.
#[derive(Clone, Copy, PartialEq, Eq, Structural, Debug)]
pub struct KeyBuffer {
    /// Keys that are held down.
    pub held: KeySet,
    /// Keys that went down since the last tick.
    pub pressed: KeySet,
}

impl KeyBuffer {
    /// A keyboard on which no key is down.
    pub fn new() -> (keys: KeyBuffer)
        ensures
            keys == (KeyBuffer { held: KeySet::spec_empty(), pressed: KeySet::spec_empty() }),
    {
        KeyBuffer { held: KeySet::empty(), pressed: KeySet::empty() }
    }

    /// The keyboard after `key` went down: it is held, and it counts as
    /// newly pressed if it was not held before or was newly pressed
    /// already.
    pub open spec fn after_press(self, key: Key) -> KeyBuffer {
        KeyBuffer {
            held: self.held.with(key, true),
            pressed: self.pressed.with(key, self.pressed.has(key) || !self.held.has(key)),
        }
    }

    /// The keyboard after `key` came up: it is no longer held. A press that
    /// no tick has seen yet stays on record.
    pub open spec fn after_release(self, key: Key) -> KeyBuffer {
        KeyBuffer { held: self.held.with(key, false), ..self }
    }

    /// Records that `key` went down.
    pub fn press(&mut self, key: Key)
        ensures
            *final(self) == old(self).after_press(key),
    {
        let fresh = self.pressed.contains(key) || !self.held.contains(key);
        self.held.put(key, true);
        self.pressed.put(key, fresh);
    }

    /// Records that `key` came up.
    pub fn release(&mut self, key: Key)
        ensures
            *final(self) == old(self).after_release(key),
    {
        self.held.put(key, false);
    }

    /// Ends a tick: the held keys stay held and none counts as newly
    /// pressed any more.
    pub fn end_tick(&mut self)
        ensures
            *final(self) == (KeyBuffer { pressed: KeySet::spec_empty(), ..*old(self) }),
    {
        self.pressed = KeySet::empty();
    }
}

/// What the simulation gets from outside for one tick: the time since the
/// last tick, in nanoseconds, and the state of the keyboard.
#[derive(Clone, Copy, PartialEq, Eq, Structural, Debug)]
pub struct Graphics {
    delta_time: u64,
    keybuffer: KeyBuffer,
}

impl Graphics {
    /// A snapshot of `keybuffer` together with the frame delta.
    pub fn new(keybuffer: &KeyBuffer, delta_time: u64) -> (g: Graphics)
        ensures
            g.spec_delta_time() == delta_time,
            g.spec_keybuffer() == *keybuffer,
    {
        Graphics { keybuffer: *keybuffer, delta_time }
    }

    /// The frame delta in nanoseconds.
    pub closed spec fn spec_delta_time(self) -> u64 {
        self.delta_time
    }

    /// The state of the keyboard.
    pub closed spec fn spec_keybuffer(self) -> KeyBuffer {
        self.keybuffer
    }

    /// The frame delta in nanoseconds.
    pub fn get_delta_time(&self) -> (dt: u64)
        ensures
            dt == self.spec_delta_time(),
    {
        self.delta_time
    }

    /// The state of the keyboard.
    pub fn get_keybuffer(&self) -> (keys: &KeyBuffer)
        ensures
            *keys == self.spec_keybuffer(),
    {
        &self.keybuffer
    }
}

} // verus!
