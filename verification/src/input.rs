use vstd::prelude::*;

verus! {

/// The keyboard key of each of the sixteen keypad keys, as its code in the
/// USB keyboard usage table (the numbering that SDL scancodes follow). Key
/// `k` of the keypad is element `k`:
///
/// ```text
/// 1 2 3 4      0 1 2 3
/// Q W E R  ->  4 5 6 7
/// A S D F      8 9 A B
/// Z X C V      C D E F
/// ```
pub open spec fn keypad_layout() -> Seq<i32> {
    seq![
        30i32, 31i32, 32i32, 33i32,
        20i32, 26i32, 8i32, 21i32,
        4i32, 22i32, 7i32, 9i32,
        29i32, 27i32, 6i32, 25i32,
    ]
}

/// The keypad key that the keyboard key with code `scancode` stands for,
/// if it stands for one.
pub fn scancode_to_key(scancode: i32) -> (key: Option<u8>)
    ensures
        key matches Some(k) ==> k < 16 && keypad_layout()[k as int] == scancode,
        key is None ==> forall|k: int| 0 <= k < 16 ==> keypad_layout()[k] != scancode,
{
    match scancode {
        30 => Some(0),
        31 => Some(1),
        32 => Some(2),
        33 => Some(3),
        20 => Some(4),
        26 => Some(5),
        8 => Some(6),
        21 => Some(7),
        4 => Some(8),
        22 => Some(9),
        7 => Some(10),
        9 => Some(11),
        29 => Some(12),
        27 => Some(13),
        6 => Some(14),
        25 => Some(15),
        _ => None,
    }
}

/// The keypad after the keyboard key with code `scancode` went down
/// (`pressed`) or up: the keypad key that it stands for is held or
/// released, and a key that stands for none changes nothing.
pub open spec fn key_event_spec(keys: Seq<bool>, scancode: i32, pressed: bool) -> Seq<bool> {
    Seq::new(
        keys.len(),
        |k: int|
            if 0 <= k < 16 && keypad_layout()[k] == scancode {
                pressed
            } else {
                keys[k]
            },
    )
}

/// Records in `keys` that the keyboard key with code `scancode` went down
/// or up.
pub fn key_event(keys: &mut [bool; 16], scancode: i32, pressed: bool)
    ensures
        final(keys)@ == key_event_spec(old(keys)@, scancode, pressed),
{
    if let Some(idx) = scancode_to_key(scancode) {
        keys[idx as usize] = pressed;
    }
}

} // verus!
