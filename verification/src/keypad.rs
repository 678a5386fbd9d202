//! The sixteen-key pad: which host key stands for each key code, and a
//! snapshot of which host keys are held down.

use vstd::prelude::*;

verus! {

/// The host keys that the pad is laid out on, row by row:
/// `1 2 3 4`, `Q W E R`, `A S D F`, `Z X C V`.
#[derive(Clone, Copy, Debug, PartialEq, Eq, Structural)]
pub enum HostKey {
    Key1,
    Key2,
    Key3,
    Key4,
    Q,
    W,
    E,
    R,
    A,
    S,
    D,
    F,
    Z,
    X,
    C,
    V,
}

impl HostKey {
    /// The place of the key in the layout, counted row by row from 0.
    pub open spec fn slot(self) -> int {
        match self {
            HostKey::Key1 => 0,
            HostKey::Key2 => 1,
            HostKey::Key3 => 2,
            HostKey::Key4 => 3,
            HostKey::Q => 4,
            HostKey::W => 5,
            HostKey::E => 6,
            HostKey::R => 7,
            HostKey::A => 8,
            HostKey::S => 9,
            HostKey::D => 10,
            HostKey::F => 11,
            HostKey::Z => 12,
            HostKey::X => 13,
            HostKey::C => 14,
            HostKey::V => 15,
        }
    }

    fn index(self) -> (i: usize)
        ensures
            i == self.slot(),
    {
        match self {
            HostKey::Key1 => 0,
            HostKey::Key2 => 1,
            HostKey::Key3 => 2,
            HostKey::Key4 => 3,
            HostKey::Q => 4,
            HostKey::W => 5,
            HostKey::E => 6,
            HostKey::R => 7,
            HostKey::A => 8,
            HostKey::S => 9,
            HostKey::D => 10,
            HostKey::F => 11,
            HostKey::Z => 12,
            HostKey::X => 13,
            HostKey::C => 14,
            HostKey::V => 15,
        }
    }
}

/// The host key for a key code. The pad of the machine reads
/// `1 2 3 C`, `4 5 6 D`, `7 8 9 E`, `A 0 B F`, and each key lies on the host
/// key at the same place of the layout. A value that is no key code stands
/// for the first key of the layout.
pub open spec fn spec_u8_to_key(key: u8) -> HostKey {
    match key {
        0x01 => HostKey::Key1,
        0x02 => HostKey::Key2,
        0x03 => HostKey::Key3,
        0x0C => HostKey::Key4,
        0x04 => HostKey::Q,
        0x05 => HostKey::W,
        0x06 => HostKey::E,
        0x0D => HostKey::R,
        0x07 => HostKey::A,
        0x08 => HostKey::S,
        0x09 => HostKey::D,
        0x0E => HostKey::F,
        0x0A => HostKey::Z,
        0x00 => HostKey::X,
        0x0B => HostKey::C,
        0x0F => HostKey::V,
        _ => HostKey::Key1,
    }
}

/// The host key for a key code.
pub fn u8_to_key(key: u8) -> (host: HostKey)
    ensures
        host == spec_u8_to_key(key),
{
    match key {
        0x01 => HostKey::Key1,
        0x02 => HostKey::Key2,
        0x03 => HostKey::Key3,
        0x0C => HostKey::Key4,
        0x04 => HostKey::Q,
        0x05 => HostKey::W,
        0x06 => HostKey::E,
        0x0D => HostKey::R,
        0x07 => HostKey::A,
        0x08 => HostKey::S,
        0x09 => HostKey::D,
        0x0E => HostKey::F,
        0x0A => HostKey::Z,
        0x00 => HostKey::X,
        0x0B => HostKey::C,
        0x0F => HostKey::V,
        _ => HostKey::Key1,
    }
}

/// The sixteen key codes lie on sixteen different host keys, and every
/// host key has a key code.
pub proof fn law_key_layout_is_one_to_one(a: u8, b: u8, host: HostKey)
    requires
        a < 16,
        b < 16,
    ensures
        spec_u8_to_key(a) == spec_u8_to_key(b) ==> a == b,
        exists|code: u8| code < 16 && #[trigger] spec_u8_to_key(code) == host,
{
    let code: u8 = match host {
        HostKey::Key1 => 0x01,
        HostKey::Key2 => 0x02,
        HostKey::Key3 => 0x03,
        HostKey::Key4 => 0x0C,
        HostKey::Q => 0x04,
        HostKey::W => 0x05,
        HostKey::E => 0x06,
        HostKey::R => 0x0D,
        HostKey::A => 0x07,
        HostKey::S => 0x08,
        HostKey::D => 0x09,
        HostKey::F => 0x0E,
        HostKey::Z => 0x0A,
        HostKey::X => 0x00,
        HostKey::C => 0x0B,
        HostKey::V => 0x0F,
    };
    assert(code < 16 && spec_u8_to_key(code) == host);
}

/// Which host keys are held down at one moment.
pub struct Keypad {
    down: [bool; 16],
}

impl Keypad {
    /// Whether `key` is held down in this snapshot.
    pub closed spec fn is_down(&self, key: HostKey) -> bool {
        self.down@[key.slot()]
    }

    /// A pad with every key up.
    pub fn new() -> (pad: Keypad)
        ensures
            forall|key: HostKey| !pad.is_down(key),
    {
        Keypad { down: [false; 16] }
    }

    /// Records that `key` is held down, or that it is up.
    pub fn set_key(&mut self, key: HostKey, down: bool)
        ensures
            final(self).is_down(key) == down,
            forall|other: HostKey| other != key ==> final(self).is_down(other) == old(self).is_down(other),
    {
        let i: usize = key.index();
        self.down[i] = down;
    }

    /// Whether `key` is held down.
    pub fn is_key_down(&self, key: HostKey) -> (down: bool)
        ensures
            down == self.is_down(key),
    {
        self.down[key.index()]
    }
}

} // verus!
