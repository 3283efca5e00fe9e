//! Keyboard state and per-paddle key bindings.

use vstd::prelude::*;

verus! {

/// A physical keyboard key the game reads.
#[derive(Clone, Copy, Debug, PartialEq, Eq, Structural)]
pub enum Key {
    W,
    A,
    S,
    D,
    Q,
    E,
    Up,
    Down,
    Left,
    Right,
    Comma,
    Period,
    Return,
}

/// The keys one paddle answers to: four movement keys and two rotation
/// keys.
#[derive(Clone, Copy, Debug, PartialEq, Eq, Structural)]
pub struct InputConfig {
    pub left: Key,
    pub right: Key,
    pub down: Key,
    pub up: Key,
    pub rot_1: Key,
    pub rot_2: Key,
}

impl InputConfig {
    /// The left player's bindings, as a spec value.
    pub open spec fn left_spec() -> InputConfig {
        InputConfig {
            right: Key::D,
            left: Key::A,
            up: Key::W,
            down: Key::S,
            rot_1: Key::Q,
            rot_2: Key::E,
        }
    }

    /// The right player's bindings, as a spec value.
    pub open spec fn right_spec() -> InputConfig {
        InputConfig {
            right: Key::Right,
            left: Key::Left,
            up: Key::Up,
            down: Key::Down,
            rot_1: Key::Comma,
            rot_2: Key::Period,
        }
    }

    /// The left player's bindings: WASD to move, Q and E to rotate.
    pub fn left() -> (c: InputConfig)
        ensures
            c == InputConfig::left_spec(),
    {
        InputConfig {
            right: Key::D,
            left: Key::A,
            up: Key::W,
            down: Key::S,
            rot_1: Key::Q,
            rot_2: Key::E,
        }
    }

    /// The right player's bindings: arrow keys to move, comma and period
    /// to rotate.
    pub fn right() -> (c: InputConfig)
        ensures
            c == InputConfig::right_spec(),
    {
        InputConfig {
            right: Key::Right,
            left: Key::Left,
            up: Key::Up,
            down: Key::Down,
            rot_1: Key::Comma,
            rot_2: Key::Period,
        }
    }
}

/// A snapshot of the keys held down during one frame.
#[derive(Debug)]
pub struct KeyState {
    pub held: Vec<Key>,
}

impl KeyState {
    /// Whether `k` is held in this snapshot.
    pub open spec fn spec_pressed(self, k: Key) -> bool {
        self.held@.contains(k)
    }

    /// A snapshot with no key held.
    pub fn none() -> (s: KeyState)
        ensures
            forall|k: Key| !s.spec_pressed(k),
    {
        KeyState { held: Vec::new() }
    }

    /// Records `k` as held.
    pub fn press(&mut self, k: Key)
        ensures
            forall|j: Key|
                final(self).spec_pressed(j) == (old(self).spec_pressed(j) || j == k),
    {
        self.held.push(k);
        proof {
            assert(forall|j: Key|
                self.held@.contains(j) == (old(self).held@.contains(j) || j == k)) by {
                assert(self.held@ == old(self).held@.push(k));
                assert(forall|j: Key| old(self).held@.contains(j)
                    ==> #[trigger] self.held@.contains(j)) by {
                    assert(forall|t: int|
                        0 <= t < old(self).held@.len() ==> self.held@[t] == #[trigger] old(
                        self,
                        ).held@[t]);
                }
                assert(self.held@.contains(k)) by {
                    assert(self.held@[self.held@.len() - 1] == k);
                }
            }
        }
    }

    /// Polls whether `k` is held down.
    pub fn pressed(&self, k: Key) -> (r: bool)
        ensures
            r == self.spec_pressed(k),
    {
        let mut i: usize = 0;
        while i < self.held.len()
            invariant
                i <= self.held.len(),
                forall|t: int| 0 <= t < i ==> self.held@[t] != k,
            decreases self.held.len() - i,
        {
            if self.held[i] == k {
                return true;
            }
            i = i + 1;
        }
        false
    }
}

} // verus!
