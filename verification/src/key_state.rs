//! Which movement keys are held down.

use vstd::prelude::*;

verus! {

/// A key of the keyboard, as far as movement goes.
#[derive(Debug, Clone, Copy, PartialEq, Eq, Hash, Structural)]
pub enum Key {
    /// `W`: forward.
    KeyW,
    /// `S`: backward.
    KeyS,
    /// `A`: left.
    KeyA,
    /// `D`: right.
    KeyD,
    /// Space: up.
    Space,
    /// Left shift: down.
    ShiftLeft,
    /// Any other key.
    Other,
}

/// The movement keys that are held down.
#[derive(Debug, Clone, Copy, PartialEq, Eq, Structural)]
pub struct KeyState {
    forward: bool,
    backward: bool,
    left: bool,
    right: bool,
    up: bool,
    down: bool,
}

/// The keys held down, as a mathematical value.
pub struct KeysModel {
    pub forward: bool,
    pub backward: bool,
    pub left: bool,
    pub right: bool,
    pub up: bool,
    pub down: bool,
}

impl KeysModel {
    /// The keys after `key` went down (`pressed`) or up.
    pub open spec fn update(self, key: Key, pressed: bool) -> KeysModel {
        match key {
            Key::KeyW => KeysModel { forward: pressed, ..self },
            Key::KeyS => KeysModel { backward: pressed, ..self },
            Key::KeyA => KeysModel { left: pressed, ..self },
            Key::KeyD => KeysModel { right: pressed, ..self },
            Key::Space => KeysModel { up: pressed, ..self },
            Key::ShiftLeft => KeysModel { down: pressed, ..self },
            Key::Other => self,
        }
    }

    /// The direction along one axis: one for the key `toward`, minus one
    /// for the key `away`.
    pub open spec fn axis(toward: bool, away: bool) -> int {
        (if toward { 1int } else { 0 }) - (if away { 1int } else { 0 })
    }

    /// The direction of movement: right, up and forward count as one.
    pub open spec fn dir(self) -> (int, int, int) {
        (
            KeysModel::axis(self.right, self.left),
            KeysModel::axis(self.up, self.down),
            KeysModel::axis(self.forward, self.backward),
        )
    }
}

impl View for KeyState {
    type V = KeysModel;

    closed spec fn view(&self) -> KeysModel {
        KeysModel {
            forward: self.forward,
            backward: self.backward,
            left: self.left,
            right: self.right,
            up: self.up,
            down: self.down,
        }
    }
}

impl Default for KeyState {
    /// No key is held down.
    fn default() -> (keys: KeyState)
        ensures
            keys@ == (KeysModel {
                forward: false,
                backward: false,
                left: false,
                right: false,
                up: false,
                down: false,
            }),
    {
        KeyState {
            forward: false,
            backward: false,
            left: false,
            right: false,
            up: false,
            down: false,
        }
    }
}

fn axis(toward: bool, away: bool) -> (dir: i8)
    ensures
        dir == KeysModel::axis(toward, away),
{
    let plus: i8 = if toward { 1 } else { 0 };
    let minus: i8 = if away { 1 } else { 0 };
    plus - minus
}

impl KeyState {
    /// Records that `key` went down (`pressed`) or up.
    pub fn update(&mut self, key: Key, pressed: bool)
        ensures
            final(self)@ == old(self)@.update(key, pressed),
    {
        match key {
            Key::KeyW => self.forward = pressed,
            Key::KeyS => self.backward = pressed,
            Key::KeyA => self.left = pressed,
            Key::KeyD => self.right = pressed,
            Key::Space => self.up = pressed,
            Key::ShiftLeft => self.down = pressed,
            Key::Other => (),
        }
    }

    /// The direction of movement along x, y and z: each is -1, 0 or 1.
    pub fn dir(&self) -> (dir: (i8, i8, i8))
        ensures
            (dir.0 as int, dir.1 as int, dir.2 as int) == self@.dir(),
    {
        (axis(self.right, self.left), axis(self.up, self.down), axis(self.forward, self.backward))
    }
}

} // verus!
