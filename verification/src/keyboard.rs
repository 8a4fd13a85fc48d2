use vstd::prelude::*;

verus! {

/// The fixed hexadecimal keypad mapping: digits 0-9 and letters A-F map to
/// indices 0-15; any other symbol maps to index 0.
pub open spec fn spec_key_index(key: char) -> u8 {
    match key {
        '0' => 0,
        '1' => 1,
        '2' => 2,
        '3' => 3,
        '4' => 4,
        '5' => 5,
        '6' => 6,
        '7' => 7,
        '8' => 8,
        '9' => 9,
        'A' => 10,
        'B' => 11,
        'C' => 12,
        'D' => 13,
        'E' => 14,
        'F' => 15,
        _ => 0,
    }
}

/// Maps an external key symbol to its keypad index 0-15; unmapped symbols
/// go to 0.
pub fn char_to_index(key: char) -> (r: usize)
    ensures
        r == spec_key_index(key) as usize,
        r < 16,
{
    match key {
        '0' => 0,
        '1' => 1,
        '2' => 2,
        '3' => 3,
        '4' => 4,
        '5' => 5,
        '6' => 6,
        '7' => 7,
        '8' => 8,
        '9' => 9,
        'A' => 10,
        'B' => 11,
        'C' => 12,
        'D' => 13,
        'E' => 14,
        'F' => 15,
        _ => 0,
    }
}

} // verus!
