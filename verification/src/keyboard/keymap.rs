//! The keymap that the virtual keyboard uploads.
//!
//! Every printable ASCII character has a permanent place in it, on the key and
//! at the level where a stock `us` layout has it. Other characters are placed
//! on demand, each at the AltGr level of one key of the safe alphanumeric
//! block, in the order in which they were first needed.

use crate::text::{decimal, decimal_text};
use vstd::prelude::*;

verus! {

/// Offset between an evdev keycode and the corresponding XKB keycode.
pub const EVDEV_XKB_OFFSET: u32 = 8;

/// XKB keycode of the Shift key.
pub const SHIFT_XKB_KEYCODE: u32 = 50;

/// XKB keycode of the AltGr key.
pub const ALTGR_XKB_KEYCODE: u32 = 108;

/// XKB keycode of the Control key.
pub const CTRL_XKB_KEYCODE: u32 = 37;

/// The greatest keycode that the keymap defines.
pub const MAX_KEYCODE: u32 = 108;

/// Number of keys with a permanent pair of ASCII characters.
pub const ASCII_KEYS: usize = 48;

/// Number of fixed keys: modifiers, BackSpace, Return and Tab.
pub const BASE_KEYS: usize = 8;

/// Number of keys that can host a character at their AltGr level.
pub const SAFE_KEYS: usize = 45;

/// Convert an XKB keycode into the evdev keycode that goes over the wire. The
/// compositor adds the offset again before it looks the key up.
pub fn xkb_to_evdev_keycode(xkb_keycode: u32) -> (r: u32)
    ensures
        r == (if xkb_keycode >= EVDEV_XKB_OFFSET {
            xkb_keycode - EVDEV_XKB_OFFSET
        } else {
            0
        }),
{
    if xkb_keycode >= EVDEV_XKB_OFFSET {
        xkb_keycode - EVDEV_XKB_OFFSET
    } else {
        0
    }
}

/// The level reached by a key tap, and so the modifier that must be held.
#[derive(Clone, Copy, Debug, PartialEq, Eq, Structural)]
pub enum Level {
    /// No modifier (lowercase letters, digits, base punctuation).
    Base,
    /// Shift held (uppercase letters, shifted punctuation).
    Shift,
    /// AltGr held (characters beyond ASCII).
    AltGr,
}

/// Where a character lives in the uploaded keymap: a keycode plus the level
/// needed to produce it.
#[derive(Clone, Copy, Debug, PartialEq, Eq, Structural)]
pub struct CharKey {
    pub keycode: u32,
    pub level: Level,
}

/// A key of the stock `us` layout with its two ASCII characters.
#[derive(Clone, Copy, Debug, PartialEq, Eq, Structural)]
pub struct AsciiKey {
    pub keycode: u32,
    pub base: char,
    pub shifted: char,
}

/// The keys that carry ASCII, with the keysym names of their two characters.
/// The first 45 form the safe alphanumeric block: the number row and the three
/// letter rows. Grave, backslash and space follow.
pub open spec fn ascii_row(i: int) -> (AsciiKey, Seq<char>, Seq<char>) {
    if i == 0 {
        (AsciiKey { keycode: 10, base: '1', shifted: '!' }, "1"@, "exclam"@)
    } else if i == 1 {
        (AsciiKey { keycode: 11, base: '2', shifted: '@' }, "2"@, "at"@)
    } else if i == 2 {
        (AsciiKey { keycode: 12, base: '3', shifted: '#' }, "3"@, "numbersign"@)
    } else if i == 3 {
        (AsciiKey { keycode: 13, base: '4', shifted: '$' }, "4"@, "dollar"@)
    } else if i == 4 {
        (AsciiKey { keycode: 14, base: '5', shifted: '%' }, "5"@, "percent"@)
    } else if i == 5 {
        (AsciiKey { keycode: 15, base: '6', shifted: '^' }, "6"@, "asciicircum"@)
    } else if i == 6 {
        (AsciiKey { keycode: 16, base: '7', shifted: '&' }, "7"@, "ampersand"@)
    } else if i == 7 {
        (AsciiKey { keycode: 17, base: '8', shifted: '*' }, "8"@, "asterisk"@)
    } else if i == 8 {
        (AsciiKey { keycode: 18, base: '9', shifted: '(' }, "9"@, "parenleft"@)
    } else if i == 9 {
        (AsciiKey { keycode: 19, base: '0', shifted: ')' }, "0"@, "parenright"@)
    } else if i == 10 {
        (AsciiKey { keycode: 20, base: '-', shifted: '_' }, "minus"@, "underscore"@)
    } else if i == 11 {
        (AsciiKey { keycode: 21, base: '=', shifted: '+' }, "equal"@, "plus"@)
    } else if i == 12 {
        (AsciiKey { keycode: 24, base: 'q', shifted: 'Q' }, "q"@, "Q"@)
    } else if i == 13 {
        (AsciiKey { keycode: 25, base: 'w', shifted: 'W' }, "w"@, "W"@)
    } else if i == 14 {
        (AsciiKey { keycode: 26, base: 'e', shifted: 'E' }, "e"@, "E"@)
    } else if i == 15 {
        (AsciiKey { keycode: 27, base: 'r', shifted: 'R' }, "r"@, "R"@)
    } else if i == 16 {
        (AsciiKey { keycode: 28, base: 't', shifted: 'T' }, "t"@, "T"@)
    } else if i == 17 {
        (AsciiKey { keycode: 29, base: 'y', shifted: 'Y' }, "y"@, "Y"@)
    } else if i == 18 {
        (AsciiKey { keycode: 30, base: 'u', shifted: 'U' }, "u"@, "U"@)
    } else if i == 19 {
        (AsciiKey { keycode: 31, base: 'i', shifted: 'I' }, "i"@, "I"@)
    } else if i == 20 {
        (AsciiKey { keycode: 32, base: 'o', shifted: 'O' }, "o"@, "O"@)
    } else if i == 21 {
        (AsciiKey { keycode: 33, base: 'p', shifted: 'P' }, "p"@, "P"@)
    } else if i == 22 {
        (AsciiKey { keycode: 34, base: '[', shifted: '{' }, "bracketleft"@, "braceleft"@)
    } else if i == 23 {
        (AsciiKey { keycode: 35, base: ']', shifted: '}' }, "bracketright"@, "braceright"@)
    } else if i == 24 {
        (AsciiKey { keycode: 38, base: 'a', shifted: 'A' }, "a"@, "A"@)
    } else if i == 25 {
        (AsciiKey { keycode: 39, base: 's', shifted: 'S' }, "s"@, "S"@)
    } else if i == 26 {
        (AsciiKey { keycode: 40, base: 'd', shifted: 'D' }, "d"@, "D"@)
    } else if i == 27 {
        (AsciiKey { keycode: 41, base: 'f', shifted: 'F' }, "f"@, "F"@)
    } else if i == 28 {
        (AsciiKey { keycode: 42, base: 'g', shifted: 'G' }, "g"@, "G"@)
    } else if i == 29 {
        (AsciiKey { keycode: 43, base: 'h', shifted: 'H' }, "h"@, "H"@)
    } else if i == 30 {
        (AsciiKey { keycode: 44, base: 'j', shifted: 'J' }, "j"@, "J"@)
    } else if i == 31 {
        (AsciiKey { keycode: 45, base: 'k', shifted: 'K' }, "k"@, "K"@)
    } else if i == 32 {
        (AsciiKey { keycode: 46, base: 'l', shifted: 'L' }, "l"@, "L"@)
    } else if i == 33 {
        (AsciiKey { keycode: 47, base: ';', shifted: ':' }, "semicolon"@, "colon"@)
    } else if i == 34 {
        (AsciiKey { keycode: 48, base: '\'', shifted: '"' }, "apostrophe"@, "quotedbl"@)
    } else if i == 35 {
        (AsciiKey { keycode: 52, base: 'z', shifted: 'Z' }, "z"@, "Z"@)
    } else if i == 36 {
        (AsciiKey { keycode: 53, base: 'x', shifted: 'X' }, "x"@, "X"@)
    } else if i == 37 {
        (AsciiKey { keycode: 54, base: 'c', shifted: 'C' }, "c"@, "C"@)
    } else if i == 38 {
        (AsciiKey { keycode: 55, base: 'v', shifted: 'V' }, "v"@, "V"@)
    } else if i == 39 {
        (AsciiKey { keycode: 56, base: 'b', shifted: 'B' }, "b"@, "B"@)
    } else if i == 40 {
        (AsciiKey { keycode: 57, base: 'n', shifted: 'N' }, "n"@, "N"@)
    } else if i == 41 {
        (AsciiKey { keycode: 58, base: 'm', shifted: 'M' }, "m"@, "M"@)
    } else if i == 42 {
        (AsciiKey { keycode: 59, base: ',', shifted: '<' }, "comma"@, "less"@)
    } else if i == 43 {
        (AsciiKey { keycode: 60, base: '.', shifted: '>' }, "period"@, "greater"@)
    } else if i == 44 {
        (AsciiKey { keycode: 61, base: '/', shifted: '?' }, "slash"@, "question"@)
    } else if i == 45 {
        (AsciiKey { keycode: 49, base: '`', shifted: '~' }, "grave"@, "asciitilde"@)
    } else if i == 46 {
        (AsciiKey { keycode: 51, base: '\\', shifted: '|' }, "backslash"@, "bar"@)
    } else {
        (AsciiKey { keycode: 65, base: ' ', shifted: ' ' }, "space"@, "space"@)
    }
}

fn ascii_key(i: usize) -> (r: (AsciiKey, &'static str, &'static str))
    requires
        i < ASCII_KEYS,
    ensures
        (r.0, r.1@, r.2@) == ascii_row(i as int),
{
    match i {
        0 => (AsciiKey { keycode: 10, base: '1', shifted: '!' }, "1", "exclam"),
        1 => (AsciiKey { keycode: 11, base: '2', shifted: '@' }, "2", "at"),
        2 => (AsciiKey { keycode: 12, base: '3', shifted: '#' }, "3", "numbersign"),
        3 => (AsciiKey { keycode: 13, base: '4', shifted: '$' }, "4", "dollar"),
        4 => (AsciiKey { keycode: 14, base: '5', shifted: '%' }, "5", "percent"),
        5 => (AsciiKey { keycode: 15, base: '6', shifted: '^' }, "6", "asciicircum"),
        6 => (AsciiKey { keycode: 16, base: '7', shifted: '&' }, "7", "ampersand"),
        7 => (AsciiKey { keycode: 17, base: '8', shifted: '*' }, "8", "asterisk"),
        8 => (AsciiKey { keycode: 18, base: '9', shifted: '(' }, "9", "parenleft"),
        9 => (AsciiKey { keycode: 19, base: '0', shifted: ')' }, "0", "parenright"),
        10 => (AsciiKey { keycode: 20, base: '-', shifted: '_' }, "minus", "underscore"),
        11 => (AsciiKey { keycode: 21, base: '=', shifted: '+' }, "equal", "plus"),
        12 => (AsciiKey { keycode: 24, base: 'q', shifted: 'Q' }, "q", "Q"),
        13 => (AsciiKey { keycode: 25, base: 'w', shifted: 'W' }, "w", "W"),
        14 => (AsciiKey { keycode: 26, base: 'e', shifted: 'E' }, "e", "E"),
        15 => (AsciiKey { keycode: 27, base: 'r', shifted: 'R' }, "r", "R"),
        16 => (AsciiKey { keycode: 28, base: 't', shifted: 'T' }, "t", "T"),
        17 => (AsciiKey { keycode: 29, base: 'y', shifted: 'Y' }, "y", "Y"),
        18 => (AsciiKey { keycode: 30, base: 'u', shifted: 'U' }, "u", "U"),
        19 => (AsciiKey { keycode: 31, base: 'i', shifted: 'I' }, "i", "I"),
        20 => (AsciiKey { keycode: 32, base: 'o', shifted: 'O' }, "o", "O"),
        21 => (AsciiKey { keycode: 33, base: 'p', shifted: 'P' }, "p", "P"),
        22 => (AsciiKey { keycode: 34, base: '[', shifted: '{' }, "bracketleft", "braceleft"),
        23 => (AsciiKey { keycode: 35, base: ']', shifted: '}' }, "bracketright", "braceright"),
        24 => (AsciiKey { keycode: 38, base: 'a', shifted: 'A' }, "a", "A"),
        25 => (AsciiKey { keycode: 39, base: 's', shifted: 'S' }, "s", "S"),
        26 => (AsciiKey { keycode: 40, base: 'd', shifted: 'D' }, "d", "D"),
        27 => (AsciiKey { keycode: 41, base: 'f', shifted: 'F' }, "f", "F"),
        28 => (AsciiKey { keycode: 42, base: 'g', shifted: 'G' }, "g", "G"),
        29 => (AsciiKey { keycode: 43, base: 'h', shifted: 'H' }, "h", "H"),
        30 => (AsciiKey { keycode: 44, base: 'j', shifted: 'J' }, "j", "J"),
        31 => (AsciiKey { keycode: 45, base: 'k', shifted: 'K' }, "k", "K"),
        32 => (AsciiKey { keycode: 46, base: 'l', shifted: 'L' }, "l", "L"),
        33 => (AsciiKey { keycode: 47, base: ';', shifted: ':' }, "semicolon", "colon"),
        34 => (AsciiKey { keycode: 48, base: '\'', shifted: '"' }, "apostrophe", "quotedbl"),
        35 => (AsciiKey { keycode: 52, base: 'z', shifted: 'Z' }, "z", "Z"),
        36 => (AsciiKey { keycode: 53, base: 'x', shifted: 'X' }, "x", "X"),
        37 => (AsciiKey { keycode: 54, base: 'c', shifted: 'C' }, "c", "C"),
        38 => (AsciiKey { keycode: 55, base: 'v', shifted: 'V' }, "v", "V"),
        39 => (AsciiKey { keycode: 56, base: 'b', shifted: 'B' }, "b", "B"),
        40 => (AsciiKey { keycode: 57, base: 'n', shifted: 'N' }, "n", "N"),
        41 => (AsciiKey { keycode: 58, base: 'm', shifted: 'M' }, "m", "M"),
        42 => (AsciiKey { keycode: 59, base: ',', shifted: '<' }, "comma", "less"),
        43 => (AsciiKey { keycode: 60, base: '.', shifted: '>' }, "period", "greater"),
        44 => (AsciiKey { keycode: 61, base: '/', shifted: '?' }, "slash", "question"),
        45 => (AsciiKey { keycode: 49, base: '`', shifted: '~' }, "grave", "asciitilde"),
        46 => (AsciiKey { keycode: 51, base: '\\', shifted: '|' }, "backslash", "bar"),
        _ => (AsciiKey { keycode: 65, base: ' ', shifted: ' ' }, "space", "space"),
    }
}

/// The `k`-th keycode of the safe alphanumeric block: in every standard layout
/// these keys carry plain printable symbols, never a function, media or system
/// key.
pub open spec fn safe_keycode(k: int) -> u32 {
    ascii_row(k).0.keycode
}

/// The first key, from the `i`-th on, that carries `c`.
pub open spec fn ascii_place(c: char, i: int) -> Option<CharKey>
    decreases ASCII_KEYS - i,
{
    if i >= ASCII_KEYS {
        None
    } else {
        let k = ascii_row(i).0;
        if k.base == c {
            Some(CharKey { keycode: k.keycode, level: Level::Base })
        } else if k.shifted == c {
            Some(CharKey { keycode: k.keycode, level: Level::Shift })
        } else {
            ascii_place(c, i + 1)
        }
    }
}

/// The permanent place of a character, for those that have one.
pub open spec fn permanent_place(c: char) -> Option<CharKey> {
    ascii_place(c, 0)
}

/// The permanent key of `ch`, if it has one.
pub fn permanent_ascii_key(ch: char) -> (r: Option<CharKey>)
    ensures
        r == permanent_place(ch),
{
    let mut i: usize = 0;
    while i < ASCII_KEYS
        invariant
            i <= ASCII_KEYS,
            permanent_place(ch) == ascii_place(ch, i as int),
        decreases ASCII_KEYS - i,
    {
        let k = ascii_key(i).0;
        if k.base == ch {
            return Some(CharKey { keycode: k.keycode, level: Level::Base });
        }
        if k.shifted == ch {
            return Some(CharKey { keycode: k.keycode, level: Level::Shift });
        }
        i += 1;
    }
    None
}

/// True if `ch` is a printable ASCII character that the permanent layout
/// covers. These never make a keymap upload necessary.
pub fn is_permanent_ascii(ch: char) -> (r: bool)
    ensures
        r == (permanent_place(ch) is Some),
{
    permanent_ascii_key(ch).is_some()
}

proof fn same_code(a: char, b: char)
    ensures
        a as u32 == b as u32 ==> a == b,
{
}

/// Every permanent character with its key, each character once.
pub fn permanent_ascii_map() -> (r: Vec<(char, CharKey)>)
    ensures
        forall|i: int|
            0 <= i < r@.len() ==> permanent_place((#[trigger] r@[i]).0) == Some(r@[i].1),
        forall|c: char|
            permanent_place(c) is Some ==> exists|i: int|
                0 <= i < r@.len() && (#[trigger] r@[i]).0 == c,
        forall|i: int, j: int|
            0 <= i < j < r@.len() ==> (#[trigger] r@[i]).0 != (#[trigger] r@[j]).0,
{
    let mut r: Vec<(char, CharKey)> = Vec::new();
    let mut n: u32 = 0;
    while n < 128
        invariant
            n <= 128,
            forall|i: int|
                0 <= i < r@.len() ==> permanent_place((#[trigger] r@[i]).0) == Some(r@[i].1)
                    && ((r@[i].0 as u32) < n),
            forall|c: char|
                permanent_place(c) is Some && (c as u32) < n ==> exists|i: int|
                    0 <= i < r@.len() && (#[trigger] r@[i]).0 == c,
            forall|i: int, j: int|
                0 <= i < j < r@.len() ==> (#[trigger] r@[i]).0 != (#[trigger] r@[j]).0,
        decreases 128 - n,
    {
        let c: char = (n as u8) as char;
        assert(c as u32 == n);
        let ghost before = r@;
        match permanent_ascii_key(c) {
            Some(k) => {
                r.push((c, k));
                proof {
                    assert(r@[before.len() as int].0 == c);
                    assert forall|d: char|
                        permanent_place(d) is Some && (d as u32) < n + 1 implies exists|i: int|
                        0 <= i < r@.len() && (#[trigger] r@[i]).0 == d by {
                        if d != c {
                            same_code(c, d);
                            let i = choose|i: int|
                                0 <= i < before.len() && (#[trigger] before[i]).0 == d;
                            assert(r@[i].0 == d);
                        }
                    }
                }
            },
            None => {
                proof {
                    assert forall|d: char|
                        permanent_place(d) is Some && (d as u32) < n + 1 implies exists|i: int|
                        0 <= i < r@.len() && (#[trigger] r@[i]).0 == d by {
                        same_code(c, d);
                    }
                }
            },
        }
        n += 1;
    }
    proof {
        assert forall|c: char| permanent_place(c) is Some implies (c as u32) < 128 by {
            permanent_from(c, 0);
        }
    }
    r
}

/// A character on an ASCII key is printable ASCII, and its place is on one of
/// the first two levels of a key of the main block.
pub proof fn permanent_from(c: char, i: int)
    requires
        0 <= i,
        ascii_place(c, i) is Some,
    ensures
        0x20 <= c as u32 <= 0x7e,
        ascii_place(c, i) matches Some(k) && 10 <= k.keycode <= 65 && k.level != Level::AltGr,
    decreases ASCII_KEYS - i,
{
    if i < ASCII_KEYS && ascii_row(i).0.base != c && ascii_row(i).0.shifted != c {
        permanent_from(c, i + 1);
    }
}

/// The keys that have no ASCII character and stand at fixed places.
#[derive(Clone, Copy, Debug, PartialEq, Eq, Structural)]
pub enum FixedKey {
    Backspace,
    LeftCtrl,
    RightCtrl,
    LeftShift,
    RightShift,
    LeftAlt,
    RightAlt,
    Enter,
    Tab,
}

/// The evdev code of a fixed key.
pub open spec fn fixed_code(k: FixedKey) -> u16 {
    match k {
        FixedKey::Backspace => 14,
        FixedKey::LeftCtrl => 29,
        FixedKey::RightCtrl => 97,
        FixedKey::LeftShift => 42,
        FixedKey::RightShift => 54,
        FixedKey::LeftAlt => 56,
        FixedKey::RightAlt => 100,
        FixedKey::Enter => 28,
        FixedKey::Tab => 15,
    }
}

/// `evdev::Key::code` of the constant for each fixed key: the code that the
/// Linux input headers give the key.
#[verifier::external_body]
pub(crate) fn evdev_code(k: FixedKey) -> (r: u16)
    ensures
        r == fixed_code(k),
{
    match k {
        FixedKey::Backspace => evdev::Key::KEY_BACKSPACE.code(),
        FixedKey::LeftCtrl => evdev::Key::KEY_LEFTCTRL.code(),
        FixedKey::RightCtrl => evdev::Key::KEY_RIGHTCTRL.code(),
        FixedKey::LeftShift => evdev::Key::KEY_LEFTSHIFT.code(),
        FixedKey::RightShift => evdev::Key::KEY_RIGHTSHIFT.code(),
        FixedKey::LeftAlt => evdev::Key::KEY_LEFTALT.code(),
        FixedKey::RightAlt => evdev::Key::KEY_RIGHTALT.code(),
        FixedKey::Enter => evdev::Key::KEY_ENTER.code(),
        FixedKey::Tab => evdev::Key::KEY_TAB.code(),
    }
}

/// The XKB keycode of a fixed key.
pub open spec fn fixed_keycode(k: FixedKey) -> u32 {
    (fixed_code(k) + EVDEV_XKB_OFFSET) as u32
}

/// The XKB keycode of a fixed key.
pub fn base_keycode(k: FixedKey) -> (r: u32)
    ensures
        r == fixed_keycode(k),
{
    evdev_code(k) as u32 + EVDEV_XKB_OFFSET
}

/// The fixed keys of every keymap, with their keysym names.
pub open spec fn base_row(i: int) -> (FixedKey, Seq<char>) {
    if i == 0 {
        (FixedKey::Backspace, "BackSpace"@)
    } else if i == 1 {
        (FixedKey::LeftCtrl, "Control_L"@)
    } else if i == 2 {
        (FixedKey::RightCtrl, "Control_R"@)
    } else if i == 3 {
        (FixedKey::LeftShift, "Shift_L"@)
    } else if i == 4 {
        (FixedKey::LeftAlt, "Alt_L"@)
    } else if i == 5 {
        (FixedKey::RightAlt, "ISO_Level3_Shift"@)
    } else if i == 6 {
        (FixedKey::Enter, "Return"@)
    } else {
        (FixedKey::Tab, "Tab"@)
    }
}

fn base_key(i: usize) -> (r: (FixedKey, &'static str))
    requires
        i < BASE_KEYS,
    ensures
        (r.0, r.1@) == base_row(i as int),
{
    match i {
        0 => (FixedKey::Backspace, "BackSpace"),
        1 => (FixedKey::LeftCtrl, "Control_L"),
        2 => (FixedKey::RightCtrl, "Control_R"),
        3 => (FixedKey::LeftShift, "Shift_L"),
        4 => (FixedKey::LeftAlt, "Alt_L"),
        5 => (FixedKey::RightAlt, "ISO_Level3_Shift"),
        6 => (FixedKey::Enter, "Return"),
        _ => (FixedKey::Tab, "Tab"),
    }
}

/// The key of the white space characters that are typed through Return and
/// Tab, and `None` for every other character.
pub open spec fn special_place(c: char) -> Option<u32> {
    if c == '\n' {
        Some(fixed_keycode(FixedKey::Enter))
    } else if c == '\t' {
        Some(fixed_keycode(FixedKey::Tab))
    } else {
        None
    }
}

/// Map `\n` and `\t` to the keycode of their dedicated key, so that they are
/// typed through Return and Tab rather than dropped.
pub fn special_base_keycode(ch: char) -> (r: Option<u32>)
    ensures
        r == special_place(ch),
{
    if ch == '\n' {
        Some(base_keycode(FixedKey::Enter))
    } else if ch == '\t' {
        Some(base_keycode(FixedKey::Tab))
    } else {
        None
    }
}

/// The keycodes that may host a character at their AltGr level, in the order
/// in which they are given out.
pub fn dynamic_keycode_pool() -> (r: Vec<u32>)
    ensures
        r@.len() == SAFE_KEYS,
        forall|k: int| 0 <= k < SAFE_KEYS ==> #[trigger] r@[k] == safe_keycode(k),
{
    let mut r: Vec<u32> = Vec::new();
    let mut k: usize = 0;
    while k < SAFE_KEYS
        invariant
            k <= SAFE_KEYS,
            r@.len() == k,
            forall|j: int| 0 <= j < k ==> #[trigger] r@[j] == safe_keycode(j),
        decreases SAFE_KEYS - k,
    {
        r.push(ascii_key(k).0.keycode);
        k += 1;
    }
    r
}

/// Number of distinct characters beyond ASCII that fit in one keymap.
pub fn dynamic_capacity() -> (r: usize)
    ensures
        r == SAFE_KEYS,
{
    dynamic_keycode_pool().len()
}

/// What the keysym tables say of one character: the name of its keysym, or
/// that it has none.
#[derive(Debug, Clone)]
pub struct Glyph {
    pub ch: char,
    pub keysym: Option<String>,
}

/// The keysym name of `c`, where `glyphs` lists one.
pub open spec fn keysym_of(glyphs: Seq<Glyph>, c: char) -> Option<Seq<char>>
    decreases glyphs.len(),
{
    if glyphs.len() == 0 {
        None
    } else if glyphs[0].ch == c {
        match glyphs[0].keysym {
            Some(s) => Some(s@),
            None => None,
        }
    } else {
        keysym_of(glyphs.drop_first(), c)
    }
}

/// The keysym name of `c`, where `glyphs` lists one.
pub fn find_keysym<'a>(glyphs: &'a [Glyph], c: char) -> (r: Option<&'a String>)
    ensures
        match r {
            Some(s) => keysym_of(glyphs@, c) == Some(s@),
            None => keysym_of(glyphs@, c) is None,
        },
{
    let mut i: usize = 0;
    assert(glyphs@.skip(0) =~= glyphs@);
    while i < glyphs.len()
        invariant
            i <= glyphs@.len(),
            keysym_of(glyphs@, c) == keysym_of(glyphs@.skip(i as int), c),
        decreases glyphs@.len() - i,
    {
        assert(glyphs@.skip(i as int)[0] == glyphs@[i as int]);
        assert(glyphs@.skip(i as int).drop_first() =~= glyphs@.skip(i + 1));
        if glyphs[i].ch == c {
            return glyphs[i].keysym.as_ref();
        }
        i += 1;
    }
    None
}

/// Whether `v` holds `c`.
pub fn has_char(v: &[char], c: char) -> (r: bool)
    ensures
        r == v@.contains(c),
{
    let mut i: usize = 0;
    while i < v.len()
        invariant
            i <= v@.len(),
            forall|j: int| 0 <= j < i ==> v@[j] != c,
        decreases v@.len() - i,
    {
        if v[i] == c {
            return true;
        }
        i += 1;
    }
    false
}

/// Whether `c` can be placed: it has no permanent place, and a keysym with a
/// name.
pub open spec fn placeable(glyphs: Seq<Glyph>, c: char) -> bool {
    &&& permanent_place(c) is None
    &&& keysym_of(glyphs, c) matches Some(name)
    &&& name.len() > 0
}

/// Which of the first `n` of `chars` are placed, in the order of their keys:
/// each placeable character once, until every safe key is taken.
pub open spec fn placed(glyphs: Seq<Glyph>, chars: Seq<char>, n: nat) -> Seq<char>
    decreases n,
{
    if n == 0 {
        seq![]
    } else {
        let before = placed(glyphs, chars, (n - 1) as nat);
        let c = chars[n - 1];
        if placeable(glyphs, c) && !before.contains(c) && before.len() < SAFE_KEYS {
            before.push(c)
        } else {
            before
        }
    }
}

/// The first slot, from the `k`-th on, that `c` has.
pub open spec fn slot_from(dynamic: Seq<char>, c: char, k: int) -> Option<int>
    decreases dynamic.len() - k,
{
    if k >= dynamic.len() {
        None
    } else if dynamic[k] == c {
        Some(k)
    } else {
        slot_from(dynamic, c, k + 1)
    }
}

/// Where `c` is in a keymap in which `dynamic` are placed.
pub open spec fn place(dynamic: Seq<char>, c: char) -> Option<CharKey> {
    match permanent_place(c) {
        Some(k) => Some(k),
        None => match slot_from(dynamic, c, 0) {
            Some(k) => Some(CharKey { keycode: safe_keycode(k), level: Level::AltGr }),
            None => None,
        },
    }
}

/// The line that defines a keycode.
pub open spec fn definition(keycode: nat) -> Seq<char> {
    "<K"@ + decimal(keycode) + "> = "@ + decimal(keycode) + ";\n"@
}

/// The definitions of the first `n` fixed keys.
pub open spec fn base_definitions(n: nat) -> Seq<char>
    decreases n,
{
    if n == 0 {
        ""@
    } else {
        base_definitions((n - 1) as nat) + definition(fixed_keycode(base_row(n - 1).0) as nat)
    }
}

/// The definitions of the first `n` ASCII keys.
pub open spec fn ascii_definitions(n: nat) -> Seq<char>
    decreases n,
{
    if n == 0 {
        ""@
    } else {
        ascii_definitions((n - 1) as nat) + definition(ascii_row(n - 1).0.keycode as nat)
    }
}

/// The line that gives the `i`-th fixed key its symbol.
pub open spec fn base_symbol(i: int) -> Seq<char> {
    "key <K"@ + decimal(fixed_keycode(base_row(i).0) as nat) + "> { [ "@ + base_row(i).1
        + " ] };\n"@
}

/// The symbols of the first `n` fixed keys.
pub open spec fn base_symbols(n: nat) -> Seq<char>
    decreases n,
{
    if n == 0 {
        ""@
    } else {
        base_symbols((n - 1) as nat) + base_symbol(n - 1)
    }
}

/// The line that makes a key a modifier.
pub open spec fn modifier_map(name: Seq<char>, keycode: nat) -> Seq<char> {
    "modifier_map "@ + name + " { <K"@ + decimal(keycode) + "> };\n"@
}

/// The third symbol of the `i`-th key: what is placed there.
pub open spec fn third_symbol(glyphs: Seq<Glyph>, dynamic: Seq<char>, i: int) -> Seq<char> {
    if i < dynamic.len() {
        match keysym_of(glyphs, dynamic[i]) {
            Some(name) => name,
            None => "NoSymbol"@,
        }
    } else {
        "NoSymbol"@
    }
}

/// The line that gives the `i`-th ASCII key its three symbols.
pub open spec fn ascii_symbol(glyphs: Seq<Glyph>, dynamic: Seq<char>, i: int) -> Seq<char> {
    "key <K"@ + decimal(ascii_row(i).0.keycode as nat) + "> { type=\"FOUR_LEVEL\", [ "@
        + ascii_row(i).1 + ", "@ + ascii_row(i).2 + ", "@ + third_symbol(glyphs, dynamic, i)
        + " ] };\n"@
}

/// The symbols of the first `n` ASCII keys.
pub open spec fn ascii_symbols(glyphs: Seq<Glyph>, dynamic: Seq<char>, n: nat) -> Seq<char>
    decreases n,
{
    if n == 0 {
        ""@
    } else {
        ascii_symbols(glyphs, dynamic, (n - 1) as nat) + ascii_symbol(glyphs, dynamic, n - 1)
    }
}

/// The XKB keymap in which `dynamic` are placed.
pub open spec fn keymap_text(glyphs: Seq<Glyph>, dynamic: Seq<char>) -> Seq<char> {
    "xkb_keymap {\nxkb_keycodes \"whisrs\" {\nminimum = 8;\nmaximum = "@ + decimal(
        MAX_KEYCODE as nat,
    ) + ";\n"@ + base_definitions(BASE_KEYS as nat) + ascii_definitions(ASCII_KEYS as nat)
        + "};\nxkb_types \"whisrs\" { include \"complete\" };\nxkb_compatibility \"whisrs\" { include \"complete\" };\nxkb_symbols \"whisrs\" {\n"@
        + base_symbols(BASE_KEYS as nat) + modifier_map("Shift"@, SHIFT_XKB_KEYCODE as nat)
        + modifier_map("Mod5"@, ALTGR_XKB_KEYCODE as nat) + modifier_map(
        "Control"@,
        CTRL_XKB_KEYCODE as nat,
    ) + ascii_symbols(glyphs, dynamic, ASCII_KEYS as nat) + "};\n};\n"@
}

fn push_definition(s: &mut String, keycode: u32)
    ensures
        final(s)@ == old(s)@ + definition(keycode as nat),
{
    let ghost before = s@;
    let n = decimal_text(keycode as u64);
    s.push_str("<K");
    s.push_str(n.as_str());
    s.push_str("> = ");
    s.push_str(n.as_str());
    s.push_str(";\n");
    assert(s@ =~= before + definition(keycode as nat));
}

fn push_modifier_map(s: &mut String, name: &str, keycode: u32)
    ensures
        final(s)@ == old(s)@ + modifier_map(name@, keycode as nat),
{
    let ghost before = s@;
    let n = decimal_text(keycode as u64);
    s.push_str("modifier_map ");
    s.push_str(name);
    s.push_str(" { <K");
    s.push_str(n.as_str());
    s.push_str("> };\n");
    assert(s@ =~= before + modifier_map(name@, keycode as nat));
}

fn push_base_symbol(s: &mut String, i: usize)
    requires
        i < BASE_KEYS,
    ensures
        final(s)@ == old(s)@ + base_symbol(i as int),
{
    let ghost before = s@;
    let (key, name) = base_key(i);
    let n = decimal_text(base_keycode(key) as u64);
    s.push_str("key <K");
    s.push_str(n.as_str());
    s.push_str("> { [ ");
    s.push_str(name);
    s.push_str(" ] };\n");
    assert(s@ =~= before + base_symbol(i as int));
}

fn push_ascii_symbol(s: &mut String, glyphs: &[Glyph], dynamic: &[char], i: usize)
    requires
        i < ASCII_KEYS,
    ensures
        final(s)@ == old(s)@ + ascii_symbol(glyphs@, dynamic@, i as int),
{
    let ghost before = s@;
    let (key, l0, l1) = ascii_key(i);
    let n = decimal_text(key.keycode as u64);
    s.push_str("key <K");
    s.push_str(n.as_str());
    s.push_str("> { type=\"FOUR_LEVEL\", [ ");
    s.push_str(l0);
    s.push_str(", ");
    s.push_str(l1);
    s.push_str(", ");
    let ghost head = s@;
    if i < dynamic.len() {
        match find_keysym(glyphs, dynamic[i]) {
            Some(name) => s.push_str(name.as_str()),
            None => s.push_str("NoSymbol"),
        }
    } else {
        s.push_str("NoSymbol");
    }
    assert(s@ == head + third_symbol(glyphs@, dynamic@, i as int));
    s.push_str(" ] };\n");
    assert(s@ =~= before + ascii_symbol(glyphs@, dynamic@, i as int));
}

/// The characters among `chars` that a keymap places, in the order of their
/// keys.
pub fn place_chars(glyphs: &[Glyph], chars: &[char]) -> (r: Vec<char>)
    ensures
        r@ == placed(glyphs@, chars@, chars@.len()),
        r@.len() <= SAFE_KEYS,
{
    let mut r: Vec<char> = Vec::new();
    let mut i: usize = 0;
    while i < chars.len()
        invariant
            i <= chars@.len(),
            r@ == placed(glyphs@, chars@, i as nat),
            r@.len() <= SAFE_KEYS,
        decreases chars@.len() - i,
    {
        let c = chars[i];
        let named = match find_keysym(glyphs, c) {
            Some(name) => !name.as_str().is_empty(),
            None => false,
        };
        if named && !is_permanent_ascii(c) && !has_char(&r, c) && r.len() < SAFE_KEYS {
            r.push(c);
        }
        i += 1;
    }
    r
}

/// A keymap: its text, and the characters that it places beyond ASCII.
#[derive(Debug, Clone)]
pub struct Keymap {
    pub text: String,
    pub dynamic: Vec<char>,
}

/// Build the full XKB keymap for the permanent ASCII layout plus the given
/// characters. Characters without a keysym are left out, and so are those for
/// which no safe key is left.
pub fn build_keymap_string(glyphs: &[Glyph], chars: &[char]) -> (r: Keymap)
    ensures
        r.dynamic@ == placed(glyphs@, chars@, chars@.len()),
        r.dynamic@.len() <= SAFE_KEYS,
        r.text@ == keymap_text(glyphs@, r.dynamic@),
{
    let dynamic = place_chars(glyphs, chars);
    let mut s =
        "xkb_keymap {\nxkb_keycodes \"whisrs\" {\nminimum = 8;\nmaximum = ".to_owned();
    s.push_str(decimal_text(MAX_KEYCODE as u64).as_str());
    s.push_str(";\n");
    let ghost t0 = s@;
    let mut i: usize = 0;
    assert(t0 + base_definitions(0) =~= t0) by {
        reveal_strlit("");
    }
    while i < BASE_KEYS
        invariant
            i <= BASE_KEYS,
            s@ == t0 + base_definitions(i as nat),
        decreases BASE_KEYS - i,
    {
        push_definition(&mut s, base_keycode(base_key(i).0));
        i += 1;
        assert(s@ =~= t0 + base_definitions(i as nat));
    }
    let ghost t1 = s@;
    let mut i: usize = 0;
    assert(t1 + ascii_definitions(0) =~= t1) by {
        reveal_strlit("");
    }
    while i < ASCII_KEYS
        invariant
            i <= ASCII_KEYS,
            s@ == t1 + ascii_definitions(i as nat),
        decreases ASCII_KEYS - i,
    {
        push_definition(&mut s, ascii_key(i).0.keycode);
        i += 1;
        assert(s@ =~= t1 + ascii_definitions(i as nat));
    }
    s.push_str(
        "};\nxkb_types \"whisrs\" { include \"complete\" };\nxkb_compatibility \"whisrs\" { include \"complete\" };\nxkb_symbols \"whisrs\" {\n",
    );
    let ghost t2 = s@;
    let mut i: usize = 0;
    assert(t2 + base_symbols(0) =~= t2) by {
        reveal_strlit("");
    }
    while i < BASE_KEYS
        invariant
            i <= BASE_KEYS,
            s@ == t2 + base_symbols(i as nat),
        decreases BASE_KEYS - i,
    {
        push_base_symbol(&mut s, i);
        i += 1;
        assert(s@ =~= t2 + base_symbols(i as nat));
    }
    push_modifier_map(&mut s, "Shift", SHIFT_XKB_KEYCODE);
    push_modifier_map(&mut s, "Mod5", ALTGR_XKB_KEYCODE);
    push_modifier_map(&mut s, "Control", CTRL_XKB_KEYCODE);
    let ghost t3 = s@;
    let mut i: usize = 0;
    assert(t3 + ascii_symbols(glyphs@, dynamic@, 0) =~= t3) by {
        reveal_strlit("");
    }
    while i < ASCII_KEYS
        invariant
            i <= ASCII_KEYS,
            s@ == t3 + ascii_symbols(glyphs@, dynamic@, i as nat),
        decreases ASCII_KEYS - i,
    {
        push_ascii_symbol(&mut s, glyphs, &dynamic, i);
        i += 1;
        assert(s@ =~= t3 + ascii_symbols(glyphs@, dynamic@, i as nat));
    }
    s.push_str("};\n};\n");
    Keymap { text: s, dynamic }
}

/// Where `ch` is in a keymap in which `dynamic` are placed.
pub fn find_key(dynamic: &[char], ch: char) -> (r: Option<CharKey>)
    requires
        dynamic@.len() <= SAFE_KEYS,
    ensures
        r == place(dynamic@, ch),
{
    match permanent_ascii_key(ch) {
        Some(k) => return Some(k),
        None => {},
    }
    let mut i: usize = 0;
    while i < dynamic.len()
        invariant
            i <= dynamic@.len() <= SAFE_KEYS,
            slot_from(dynamic@, ch, 0) == slot_from(dynamic@, ch, i as int),
            permanent_place(ch) is None,
        decreases dynamic@.len() - i,
    {
        if dynamic[i] == ch {
            return Some(CharKey { keycode: ascii_key(i).0.keycode, level: Level::AltGr });
        }
        i += 1;
    }
    None
}

} // verus!
