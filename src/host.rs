use vstd::prelude::*;

use crate::chip8::SCREEN_CELLS;

verus! {

/// Brightness lost per frame by a cell that is no longer set.
pub const FADE_SPEED: u8 = 40;

/// The hex key that a physical key stands for: the left four columns of the
/// top four keyboard rows, laid out as the hex keypad
/// `1 2 3 C / 4 5 6 D / 7 8 9 E / A 0 B F`.
pub open spec fn key_map(key: char) -> Option<u16> {
    if key == '1' {
        Some(0x1)
    } else if key == '2' {
        Some(0x2)
    } else if key == '3' {
        Some(0x3)
    } else if key == '4' {
        Some(0xC)
    } else if key == 'q' {
        Some(0x4)
    } else if key == 'w' {
        Some(0x5)
    } else if key == 'e' {
        Some(0x6)
    } else if key == 'r' {
        Some(0xD)
    } else if key == 'a' {
        Some(0x7)
    } else if key == 's' {
        Some(0x8)
    } else if key == 'd' {
        Some(0x9)
    } else if key == 'f' {
        Some(0xE)
    } else if key == 'z' {
        Some(0xA)
    } else if key == 'x' {
        Some(0x0)
    } else if key == 'c' {
        Some(0xB)
    } else if key == 'v' {
        Some(0xF)
    } else {
        None
    }
}

/// Maps a physical key, by the character it types, to a hex key; other keys
/// map to nothing.
pub fn key2btn(key: char) -> (r: Option<u16>)
    ensures
        r == key_map(key),
        r matches Some(k) ==> k < 16,
{
    match key {
        '1' => Some(0x1),
        '2' => Some(0x2),
        '3' => Some(0x3),
        '4' => Some(0xC),
        'q' => Some(0x4),
        'w' => Some(0x5),
        'e' => Some(0x6),
        'r' => Some(0xD),
        'a' => Some(0x7),
        's' => Some(0x8),
        'd' => Some(0x9),
        'f' => Some(0xE),
        'z' => Some(0xA),
        'x' => Some(0x0),
        'c' => Some(0xB),
        'v' => Some(0xF),
        _ => None,
    }
}

/// A cell's brightness after one frame: full while set, else down by the
/// fade step, never below zero.
pub open spec fn faded(level: u8, lit: bool) -> u8 {
    if lit {
        255
    } else if level > FADE_SPEED {
        (level - FADE_SPEED) as u8
    } else {
        0
    }
}

/// Advances every cell's brightness by one frame of the frame buffer `fb`.
pub fn fade_frame(decay: &mut [u8; 2048], fb: &[bool; 2048])
    ensures
        forall|k: int| 0 <= k < SCREEN_CELLS ==> #[trigger] final(decay)@[k] == faded(old(decay)@[k], fb@[k]),
{
    let ghost before = decay@;
    let mut k: usize = 0;
    while k < SCREEN_CELLS
        invariant
            k <= SCREEN_CELLS,
            before.len() == SCREEN_CELLS,
            forall|j: int| 0 <= j < k ==> #[trigger] decay@[j] == faded(before[j], fb@[j]),
            forall|j: int| k <= j < SCREEN_CELLS ==> #[trigger] decay@[j] == before[j],
        decreases SCREEN_CELLS - k,
    {
        if fb[k] {
            decay[k] = 255;
        } else {
            decay[k] = decay[k].saturating_sub(FADE_SPEED);
        }
        k = k + 1;
    }
}

} // verus!
