//! The keyboard layout: which key of the host stands for which of the 16
//! buttons.

use vstd::prelude::*;

verus! {

/// The button that the key with key code `code` stands for: the digit keys
/// `0`-`9` (codes 48-57) are buttons 0-9, the letter keys `a`-`f` (codes
/// 97-102) are buttons 10-15, and no other key is a button.
pub open spec fn button_of(code: i32) -> Option<usize> {
    if 48 <= code <= 57 {
        Some((code - 48) as usize)
    } else if 97 <= code <= 102 {
        Some((code - 97 + 10) as usize)
    } else {
        None
    }
}

/// Maps a key code of the host's keyboard to the button it stands for.
pub fn key2btn(code: i32) -> (btn: Option<usize>)
    ensures
        btn == button_of(code),
        btn is Some ==> btn.unwrap() < 16,
{
    if 48 <= code && code <= 57 {
        Some((code - 48) as usize)
    } else if 97 <= code && code <= 102 {
        Some((code - 97 + 10) as usize)
    } else {
        None
    }
}

} // verus!
