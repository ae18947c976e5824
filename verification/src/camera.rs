//! Keyboard state for the simple fly camera of the viewers.
//!
//! The controller only records which movement keys are held; that part is
//! exact and lives here.  Turning the held keys into a camera translation
//! each frame is inexact arithmetic and stays with the embedding program,
//! as does the window library that produces the key events.

use vstd::prelude::*;

verus! {

/// Whether a key event pressed or released its key.
#[derive(Clone, Copy, Debug, PartialEq, Eq, Structural)]
pub enum KeyState {
    Pressed,
    Released,
}

/// The keys the camera controller listens to; every other key is `Other`
/// and ignored.
#[derive(Clone, Copy, Debug, PartialEq, Eq, Structural)]
pub enum Key {
    W,
    A,
    S,
    D,
    Up,
    Down,
    Left,
    Right,
    Space,
    LShift,
    Other,
}

/// Which movement keys are currently held: `wasd` in the order W, A, S,
/// D; `arrows` in the order up, down, left, right.
pub struct SimpleCamera3DController {
    pub wasd: [bool; 4],
    pub space: bool,
    pub lshift: bool,
    pub arrows: [bool; 4],
}

impl SimpleCamera3DController {
    /// A controller with no key held.
    pub fn create() -> (r: Self)
        ensures
            r.wasd@ =~= seq![false, false, false, false],
            r.arrows@ =~= seq![false, false, false, false],
            !r.space,
            !r.lshift,
    {
        Self { wasd: [false;4], space: false, lshift: false, arrows: [false;4] }
    }

    /// Records one key event: the named key's flag takes the event's
    /// state and every other flag is unchanged.
    pub fn input(&mut self, state: KeyState, code: Key)
        ensures
            ({
                let c = state is Pressed;
                &&& final(self).wasd@ == (match code {
                    Key::W => old(self).wasd@.update(0, c),
                    Key::A => old(self).wasd@.update(1, c),
                    Key::S => old(self).wasd@.update(2, c),
                    Key::D => old(self).wasd@.update(3, c),
                    _ => old(self).wasd@,
                })
                &&& final(self).arrows@ == (match code {
                    Key::Up => old(self).arrows@.update(0, c),
                    Key::Down => old(self).arrows@.update(1, c),
                    Key::Left => old(self).arrows@.update(2, c),
                    Key::Right => old(self).arrows@.update(3, c),
                    _ => old(self).arrows@,
                })
                &&& final(self).space == (if code is Space {
                    c
                } else {
                    old(self).space
                })
                &&& final(self).lshift == (if code is LShift {
                    c
                } else {
                    old(self).lshift
                })
            }),
    {
        let c = match state {
            KeyState::Pressed => true,
            KeyState::Released => false,
        };
        match code {
            Key::W => {
                self.wasd = [c, self.wasd[1], self.wasd[2], self.wasd[3]];
            },
            Key::A => {
                self.wasd = [self.wasd[0], c, self.wasd[2], self.wasd[3]];
            },
            Key::S => {
                self.wasd = [self.wasd[0], self.wasd[1], c, self.wasd[3]];
            },
            Key::D => {
                self.wasd = [self.wasd[0], self.wasd[1], self.wasd[2], c];
            },
            Key::Up => {
                self.arrows = [c, self.arrows[1], self.arrows[2], self.arrows[3]];
            },
            Key::Down => {
                self.arrows = [self.arrows[0], c, self.arrows[2], self.arrows[3]];
            },
            Key::Left => {
                self.arrows = [self.arrows[0], self.arrows[1], c, self.arrows[3]];
            },
            Key::Right => {
                self.arrows = [self.arrows[0], self.arrows[1], self.arrows[2], c];
            },
            Key::Space => {
                self.space = c;
            },
            Key::LShift => {
                self.lshift = c;
            },
            Key::Other => {},
        }
        proof {
            assert(self.wasd@.len() == 4 && self.arrows@.len() == 4);
        }
    }
}

} // verus!
