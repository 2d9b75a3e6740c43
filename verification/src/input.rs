//! Key identities and key state for the calculator's pad.

use vstd::prelude::*;

verus! {

/// One key of the calculator's pad: ten digits, six function keys, and the
/// two modifiers. `_Max` is a sentinel marking the number of real keys; it
/// names no physical key.
#[derive(Clone, Copy, Debug, Hash, PartialEq, Eq, Structural)]
pub enum IcKey {
    Num0,
    Num1,
    Num2,
    Num3,
    Num4,
    Num5,
    Num6,
    Num7,
    Num8,
    Num9,
    Func1,
    Func2,
    Func3,
    Func4,
    Func5,
    Func6,
    Shift,
    Super,
    _Max,
}

impl IcKey {
    /// How many real keys there are: the position of the `_Max` sentinel.
    pub const COUNT: usize = 18;

    /// The position of this key in a key-state array.
    pub open spec fn index_spec(self) -> int {
        match self {
            IcKey::Num0 => 0,
            IcKey::Num1 => 1,
            IcKey::Num2 => 2,
            IcKey::Num3 => 3,
            IcKey::Num4 => 4,
            IcKey::Num5 => 5,
            IcKey::Num6 => 6,
            IcKey::Num7 => 7,
            IcKey::Num8 => 8,
            IcKey::Num9 => 9,
            IcKey::Func1 => 10,
            IcKey::Func2 => 11,
            IcKey::Func3 => 12,
            IcKey::Func4 => 13,
            IcKey::Func5 => 14,
            IcKey::Func6 => 15,
            IcKey::Shift => 16,
            IcKey::Super => 17,
            IcKey::_Max => 18,
        }
    }

    /// The position of this key in a key-state array.
    pub fn index(self) -> (r: usize)
        ensures
            r == self.index_spec(),
            r <= 18,
    {
        match self {
            IcKey::Num0 => 0,
            IcKey::Num1 => 1,
            IcKey::Num2 => 2,
            IcKey::Num3 => 3,
            IcKey::Num4 => 4,
            IcKey::Num5 => 5,
            IcKey::Num6 => 6,
            IcKey::Num7 => 7,
            IcKey::Num8 => 8,
            IcKey::Num9 => 9,
            IcKey::Func1 => 10,
            IcKey::Func2 => 11,
            IcKey::Func3 => 12,
            IcKey::Func4 => 13,
            IcKey::Func5 => 14,
            IcKey::Func6 => 15,
            IcKey::Shift => 16,
            IcKey::Super => 17,
            IcKey::_Max => 18,
        }
    }

    /// The key at a given position: the inverse of `index`, `None` at or
    /// past the sentinel.
    pub fn from_index(i: usize) -> (r: Option<IcKey>)
        ensures
            match r {
                Some(k) => k.index_spec() == i && k != IcKey::_Max,
                None => i >= 18,
            },
    {
        match i {
            0 => Some(IcKey::Num0),
            1 => Some(IcKey::Num1),
            2 => Some(IcKey::Num2),
            3 => Some(IcKey::Num3),
            4 => Some(IcKey::Num4),
            5 => Some(IcKey::Num5),
            6 => Some(IcKey::Num6),
            7 => Some(IcKey::Num7),
            8 => Some(IcKey::Num8),
            9 => Some(IcKey::Num9),
            10 => Some(IcKey::Func1),
            11 => Some(IcKey::Func2),
            12 => Some(IcKey::Func3),
            13 => Some(IcKey::Func4),
            14 => Some(IcKey::Func5),
            15 => Some(IcKey::Func6),
            16 => Some(IcKey::Shift),
            17 => Some(IcKey::Super),
            _ => None,
        }
    }
}

/// The state of one key across two frames.
#[derive(Clone, Copy, Debug, PartialEq, Eq, Structural)]
pub struct KeyState {
    pub is_down: bool,
    pub was_down: bool,
    pub just_pressed: bool,
    pub just_released: bool,
}

impl Default for KeyState {
    /// A key that has never been touched.
    fn default() -> (r: KeyState)
        ensures
            r == (KeyState {
                is_down: false,
                was_down: false,
                just_pressed: false,
                just_released: false,
            }),
    {
        KeyState { is_down: false, was_down: false, just_pressed: false, just_released: false }
    }
}

/// Marks the key as held down, as the shell records a press event.
pub fn key_down(states: &mut [KeyState; 18], key: IcKey)
    requires
        key != IcKey::_Max,
    ensures
        final(states)@ == old(states)@.update(
            key.index_spec(),
            (KeyState { is_down: true, ..old(states)@[key.index_spec()] }),
        ),
{
    let i = key.index();
    let s = states[i];
    states[i] = KeyState { is_down: true, ..s };
}

/// Marks the key as released, as the shell records a release event.
pub fn key_up(states: &mut [KeyState; 18], key: IcKey)
    requires
        key != IcKey::_Max,
    ensures
        final(states)@ == old(states)@.update(
            key.index_spec(),
            (KeyState { is_down: false, ..old(states)@[key.index_spec()] }),
        ),
{
    let i = key.index();
    let s = states[i];
    states[i] = KeyState { is_down: false, ..s };
}

/// Advances every key by one frame, as the shell does before dispatching
/// keys: the edge flags are recomputed from the held state against the
/// previous frame, and the held state becomes the previous one.
pub fn advance_key_frame(states: &mut [KeyState; 18])
    ensures
        forall|i: int|
            0 <= i < 18 ==> #[trigger] final(states)@[i] == (KeyState {
                is_down: old(states)@[i].is_down,
                was_down: old(states)@[i].is_down,
                just_pressed: old(states)@[i].is_down && !old(states)@[i].was_down,
                just_released: !old(states)@[i].is_down && old(states)@[i].was_down,
            }),
{
    let mut i: usize = 0;
    while i < 18
        invariant
            i <= 18,
            states@.len() == 18,
            forall|j: int|
                0 <= j < i ==> #[trigger] states@[j] == (KeyState {
                    is_down: old(states)@[j].is_down,
                    was_down: old(states)@[j].is_down,
                    just_pressed: old(states)@[j].is_down && !old(states)@[j].was_down,
                    just_released: !old(states)@[j].is_down && old(states)@[j].was_down,
                }),
            forall|j: int| i <= j < 18 ==> #[trigger] states@[j] == old(states)@[j],
        decreases 18 - i,
    {
        let s = states[i];
        states[i] = KeyState {
            is_down: s.is_down,
            was_down: s.is_down,
            just_pressed: s.is_down && !s.was_down,
            just_released: !s.is_down && s.was_down,
        };
        i = i + 1;
    }
}

/// A read-only view of the whole pad's key states, handed to an app while it
/// processes one key event.
pub struct InputContext<'a> {
    pub key_states: &'a [KeyState; 18],
}

impl<'a> InputContext<'a> {
    /// Whether the given key is currently held down.
    pub fn is_down(&self, key: IcKey) -> (r: bool)
        requires
            key != IcKey::_Max,
        ensures
            r == self.key_states@[key.index_spec()].is_down,
    {
        self.key_states[key.index()].is_down
    }

    /// Whether the Shift modifier is currently held down.
    pub fn is_shifted(&self) -> (r: bool)
        ensures
            r == self.key_states@[IcKey::Shift.index_spec()].is_down,
    {
        self.key_states[IcKey::Shift.index()].is_down
    }

    /// Whether the Super modifier is currently held down.
    pub fn is_super(&self) -> (r: bool)
        ensures
            r == self.key_states@[IcKey::Super.index_spec()].is_down,
    {
        self.key_states[IcKey::Super.index()].is_down
    }
}

} // verus!
