//! What the keymap and the plans keep: no character is lost, moved or sent to
//! a key that means something else to the compositor.

use crate::keyboard::keymap::{
    ascii_place, ascii_row, fixed_keycode, keysym_of, permanent_from, permanent_place, place,
    placeable, placed, safe_keycode, slot_from, special_place, third_symbol, FixedKey, Glyph, Level,
    ALTGR_XKB_KEYCODE, ASCII_KEYS, CTRL_XKB_KEYCODE, EVDEV_XKB_OFFSET, MAX_KEYCODE, SAFE_KEYS,
    SHIFT_XKB_KEYCODE,
};
use crate::keyboard::typing::{
    batch_chars, batch_end, batch_end_progress, batches_from, evict, next_chars, takes_place,
    wanted, wire, without,
};
use vstd::prelude::*;

verus! {

/// Evdev keycodes that resolve to function, media, `Print` or system keys in a
/// standard layout, and that compositors commonly bind.
pub open spec fn dangerous(evdev: int) -> bool {
    ||| 183 <= evdev <= 247
    ||| evdev == 99
    ||| 113 <= evdev <= 115
    ||| evdev == 139
    ||| evdev == 148
    ||| evdev == 149
    ||| 163 <= evdev <= 165
}

proof fn found_on_its_key(c: char, from: int, i: int)
    requires
        0 <= from <= i < ASCII_KEYS,
        ascii_row(i).0.base == c || ascii_row(i).0.shifted == c,
    ensures
        ascii_place(c, from) is Some,
    decreases i - from,
{
    if ascii_row(from).0.base != c && ascii_row(from).0.shifted != c {
        found_on_its_key(c, from + 1, i);
    }
}

/// Every printable ASCII character is permanent: it can be typed with any
/// keymap, whatever else is placed in it.
pub proof fn printable_ascii_is_permanent(c: char, dynamic: Seq<char>)
    requires
        0x20 <= c as u32 <= 0x7e,
    ensures
        permanent_place(c) is Some,
        place(dynamic, c) == permanent_place(c),
{
    on_some_key(c);
    let i = choose|i: int|
        0 <= i < ASCII_KEYS && ((#[trigger] ascii_row(i)).0.base == c || ascii_row(i).0.shifted == c);
    found_on_its_key(c, 0, i);
}

proof fn on_some_key(c: char)
    requires
        0x20 <= c as u32 <= 0x7e,
    ensures
        exists|i: int|
            0 <= i < ASCII_KEYS && ((#[trigger] ascii_row(i)).0.base == c || ascii_row(
                i,
            ).0.shifted == c),
{
    assert(ascii_row(0).0.keycode > 0);
    assert(ascii_row(1).0.keycode > 0);
    assert(ascii_row(2).0.keycode > 0);
    assert(ascii_row(3).0.keycode > 0);
    assert(ascii_row(4).0.keycode > 0);
    assert(ascii_row(5).0.keycode > 0);
    assert(ascii_row(6).0.keycode > 0);
    assert(ascii_row(7).0.keycode > 0);
    assert(ascii_row(8).0.keycode > 0);
    assert(ascii_row(9).0.keycode > 0);
    assert(ascii_row(10).0.keycode > 0);
    assert(ascii_row(11).0.keycode > 0);
    assert(ascii_row(12).0.keycode > 0);
    assert(ascii_row(13).0.keycode > 0);
    assert(ascii_row(14).0.keycode > 0);
    assert(ascii_row(15).0.keycode > 0);
    assert(ascii_row(16).0.keycode > 0);
    assert(ascii_row(17).0.keycode > 0);
    assert(ascii_row(18).0.keycode > 0);
    assert(ascii_row(19).0.keycode > 0);
    assert(ascii_row(20).0.keycode > 0);
    assert(ascii_row(21).0.keycode > 0);
    assert(ascii_row(22).0.keycode > 0);
    assert(ascii_row(23).0.keycode > 0);
    assert(ascii_row(24).0.keycode > 0);
    assert(ascii_row(25).0.keycode > 0);
    assert(ascii_row(26).0.keycode > 0);
    assert(ascii_row(27).0.keycode > 0);
    assert(ascii_row(28).0.keycode > 0);
    assert(ascii_row(29).0.keycode > 0);
    assert(ascii_row(30).0.keycode > 0);
    assert(ascii_row(31).0.keycode > 0);
    assert(ascii_row(32).0.keycode > 0);
    assert(ascii_row(33).0.keycode > 0);
    assert(ascii_row(34).0.keycode > 0);
    assert(ascii_row(35).0.keycode > 0);
    assert(ascii_row(36).0.keycode > 0);
    assert(ascii_row(37).0.keycode > 0);
    assert(ascii_row(38).0.keycode > 0);
    assert(ascii_row(39).0.keycode > 0);
    assert(ascii_row(40).0.keycode > 0);
    assert(ascii_row(41).0.keycode > 0);
    assert(ascii_row(42).0.keycode > 0);
    assert(ascii_row(43).0.keycode > 0);
    assert(ascii_row(44).0.keycode > 0);
    assert(ascii_row(45).0.keycode > 0);
    assert(ascii_row(46).0.keycode > 0);
    assert(ascii_row(47).0.keycode > 0);
}

/// Only printable ASCII characters are permanent.
pub proof fn permanent_is_printable_ascii(c: char)
    requires
        permanent_place(c) is Some,
    ensures
        0x20 <= c as u32 <= 0x7e,
{
    permanent_from(c, 0);
}

/// A slot that is found holds the character, and none is found only where none
/// does.
pub proof fn slot_in_range(dynamic: Seq<char>, c: char, k: int)
    requires
        0 <= k,
    ensures
        slot_from(dynamic, c, k) matches Some(j) ==> k <= j < dynamic.len() && dynamic[j] == c,
        slot_from(dynamic, c, k) is None ==> forall|j: int|
            k <= j < dynamic.len() ==> dynamic[j] != c,
    decreases dynamic.len() - k,
{
    if k < dynamic.len() && dynamic[k] != c {
        slot_in_range(dynamic, c, k + 1);
    }
}

/// No character is ever typed with a key that a compositor may take for a
/// function, media or system key, and characters beyond ASCII only use the
/// safe alphanumeric block. The compositor's offset brings the keycode on the
/// wire back to the key of the keymap.
pub proof fn typed_keys_are_safe(dynamic: Seq<char>, c: char)
    requires
        dynamic.len() <= SAFE_KEYS,
        place(dynamic, c) is Some,
    ensures
        place(dynamic, c) matches Some(k) && !dangerous(wire(k.keycode) as int) && wire(k.keycode)
            + EVDEV_XKB_OFFSET == k.keycode && k.keycode <= MAX_KEYCODE && (k.level == Level::AltGr
            ==> exists|i: int| 0 <= i < SAFE_KEYS && k.keycode == #[trigger] safe_keycode(i)),
{
    match permanent_place(c) {
        Some(k) => {
            permanent_from(c, 0);
        },
        None => {
            slot_in_range(dynamic, c, 0);
        },
    }
}

/// The row of the layout to which an XKB keycode belongs.
spec fn row_of(keycode: u32) -> int {
    if keycode <= 21 {
        keycode - 10
    } else if keycode <= 35 {
        keycode - 12
    } else if keycode <= 48 {
        keycode - 14
    } else if keycode == 49 {
        45
    } else if keycode == 51 {
        46
    } else if keycode <= 61 {
        keycode - 17
    } else {
        47
    }
}

proof fn row_of_its_keycode(i: int)
    requires
        0 <= i < ASCII_KEYS,
    ensures
        row_of(ascii_row(i).0.keycode) == i,
{
}

/// A character with a permanent place stands in the row of its key.
pub proof fn found_in_its_row(c: char, i: int)
    requires
        0 <= i,
    ensures
        ascii_place(c, i) matches Some(k) ==> exists|j: int|
            0 <= j < ASCII_KEYS && (#[trigger] ascii_row(j)).0.keycode == k.keycode && (k.level
                == Level::Base && ascii_row(j).0.base == c || k.level == Level::Shift && ascii_row(
                j,
            ).0.shifted == c),
    decreases ASCII_KEYS - i,
{
    if i < ASCII_KEYS {
        let row = ascii_row(i);
        if row.0.base != c && row.0.shifted != c {
            found_in_its_row(c, i + 1);
        }
    }
}

/// A key types what it is tapped for: the keymap gives the key of a character,
/// at the level of that character, the character itself or the keysym that it
/// was placed with.
pub proof fn key_carries_its_character(glyphs: Seq<Glyph>, dynamic: Seq<char>, c: char)
    requires
        dynamic.len() <= SAFE_KEYS,
        place(dynamic, c) is Some,
    ensures
        place(dynamic, c) matches Some(k) && exists|j: int|
            0 <= j < ASCII_KEYS && (#[trigger] ascii_row(j)).0.keycode == k.keycode && match k.level {
                Level::Base => ascii_row(j).0.base == c,
                Level::Shift => ascii_row(j).0.shifted == c,
                Level::AltGr => keysym_of(glyphs, c) matches Some(name) ==> third_symbol(
                    glyphs,
                    dynamic,
                    j,
                ) == name,
            },
{
    match permanent_place(c) {
        Some(k) => {
            found_in_its_row(c, 0);
        },
        None => {
            slot_in_range(dynamic, c, 0);
            let j = slot_from(dynamic, c, 0)->0;
            assert(ascii_row(j).0.keycode == safe_keycode(j));
        },
    }
}

/// No two characters share a key and a level.
pub proof fn places_are_distinct(dynamic: Seq<char>, a: char, b: char)
    requires
        dynamic.len() <= SAFE_KEYS,
        place(dynamic, a) is Some,
        a != b,
    ensures
        place(dynamic, a) != place(dynamic, b),
{
    if place(dynamic, a) == place(dynamic, b) {
        found_in_its_row(a, 0);
        found_in_its_row(b, 0);
        slot_in_range(dynamic, a, 0);
        slot_in_range(dynamic, b, 0);
        assert forall|i: int| 0 <= i < ASCII_KEYS implies row_of(
            (#[trigger] ascii_row(i)).0.keycode,
        ) == i by {
            row_of_its_keycode(i);
        }
        if permanent_place(a) is None {
            let i = slot_from(dynamic, a, 0)->0;
            let j = slot_from(dynamic, b, 0)->0;
            assert(row_of(ascii_row(i).0.keycode) == i);
            assert(row_of(ascii_row(j).0.keycode) == j);
        }
    }
}

/// The fixed keys are safe too, the modifier keys of the modifier maps are
/// among them, and none lies beyond the keymap's greatest keycode.
pub proof fn fixed_keys_are_safe(k: FixedKey)
    ensures
        !dangerous(wire(fixed_keycode(k)) as int),
        wire(fixed_keycode(k)) + EVDEV_XKB_OFFSET == fixed_keycode(k),
        fixed_keycode(k) <= MAX_KEYCODE,
        fixed_keycode(FixedKey::LeftShift) == SHIFT_XKB_KEYCODE,
        fixed_keycode(FixedKey::RightAlt) == ALTGR_XKB_KEYCODE,
        fixed_keycode(FixedKey::LeftCtrl) == CTRL_XKB_KEYCODE,
{
}

/// A keymap places each character at most once, and no more than it has keys
/// for.
pub proof fn placed_distinct(glyphs: Seq<Glyph>, chars: Seq<char>, n: nat)
    requires
        n <= chars.len(),
    ensures
        placed(glyphs, chars, n).len() <= SAFE_KEYS,
        placed(glyphs, chars, n).len() <= n,
        placed(glyphs, chars, n).no_duplicates(),
        forall|i: int|
            0 <= i < placed(glyphs, chars, n).len() ==> placeable(
                glyphs,
                #[trigger] placed(glyphs, chars, n)[i],
            ) && chars.take(n as int).contains(placed(glyphs, chars, n)[i]),
    decreases n,
{
    if n > 0 {
        placed_distinct(glyphs, chars, (n - 1) as nat);
        let before = placed(glyphs, chars, (n - 1) as nat);
        let now = placed(glyphs, chars, n);
        assert forall|i: int| 0 <= i < now.len() implies placeable(glyphs, #[trigger] now[i])
            && chars.take(n as int).contains(now[i]) by {
            if i < before.len() {
                let head = chars.take(n - 1);
                assert(head.contains(before[i]));
                let j = choose|j: int| 0 <= j < head.len() && head[j] == before[i];
                assert(chars.take(n as int)[j] == now[i]);
            } else {
                assert(chars.take(n as int)[n - 1] == now[i]);
            }
        }
    }
}

/// Where there are no more characters than keys, every placeable one gets a
/// place.
pub proof fn all_fit(glyphs: Seq<Glyph>, chars: Seq<char>, n: nat, i: int)
    requires
        n <= chars.len() <= SAFE_KEYS,
        0 <= i < n,
        placeable(glyphs, chars[i]),
    ensures
        placed(glyphs, chars, n).contains(chars[i]),
    decreases n,
{
    placed_distinct(glyphs, chars, (n - 1) as nat);
    let before = placed(glyphs, chars, (n - 1) as nat);
    let now = placed(glyphs, chars, n);
    if i < n - 1 {
        all_fit(glyphs, chars, (n - 1) as nat, i);
        let j = choose|j: int| 0 <= j < before.len() && before[j] == chars[i];
        assert(now[j] == chars[i]);
    } else if !before.contains(chars[i]) {
        assert(now[before.len() as int] == chars[i]);
    } else {
        let j = choose|j: int| 0 <= j < before.len() && before[j] == chars[i];
        assert(now[j] == chars[i]);
    }
}

proof fn placed_grows(glyphs: Seq<Glyph>, chars: Seq<char>, more: Seq<char>, n: nat)
    requires
        chars.len() <= n <= chars.len() + more.len(),
    ensures
        placed(glyphs, chars, chars.len()).len() <= placed(glyphs, chars + more, n).len(),
        placed(glyphs, chars + more, n).take(placed(glyphs, chars, chars.len()).len() as int)
            == placed(glyphs, chars, chars.len()),
    decreases n,
{
    let old = placed(glyphs, chars, chars.len());
    if n == chars.len() {
        placed_prefix(glyphs, chars, more, n);
        assert(old.take(old.len() as int) =~= old);
    } else {
        placed_grows(glyphs, chars, more, (n - 1) as nat);
        let before = placed(glyphs, chars + more, (n - 1) as nat);
        let now = placed(glyphs, chars + more, n);
        assert(now.take(old.len() as int) =~= before.take(old.len() as int));
    }
}

proof fn placed_prefix(glyphs: Seq<Glyph>, chars: Seq<char>, more: Seq<char>, n: nat)
    requires
        n <= chars.len(),
    ensures
        placed(glyphs, chars + more, n) == placed(glyphs, chars, n),
    decreases n,
{
    if n > 0 {
        placed_prefix(glyphs, chars, more, (n - 1) as nat);
    }
}

proof fn slot_stable(a: Seq<char>, b: Seq<char>, c: char, k: int)
    requires
        0 <= k,
        a.len() <= b.len(),
        b.take(a.len() as int) == a,
        slot_from(a, c, k) is Some,
    ensures
        slot_from(b, c, k) == slot_from(a, c, k),
    decreases a.len() - k,
{
    if k < a.len() {
        assert(b[k] == b.take(a.len() as int)[k]);
        if a[k] != c {
            slot_stable(a, b, c, k + 1);
        }
    }
}

/// Adding characters to a keymap moves none of those that it already places.
pub proof fn characters_keep_their_keys(
    glyphs: Seq<Glyph>,
    chars: Seq<char>,
    more: Seq<char>,
    c: char,
)
    requires
        place(placed(glyphs, chars, chars.len()), c) is Some,
    ensures
        place(placed(glyphs, chars + more, (chars + more).len()), c) == place(
            placed(glyphs, chars, chars.len()),
            c,
        ),
{
    placed_grows(glyphs, chars, more, (chars + more).len());
    if permanent_place(c) is None {
        slot_stable(
            placed(glyphs, chars, chars.len()),
            placed(glyphs, chars + more, (chars + more).len()),
            c,
            0,
        );
    }
}

/// The characters that a text needs are those of its characters that need a
/// place, each once.
pub proof fn wanted_covers(glyphs: Seq<Glyph>, text: Seq<char>, n: nat)
    requires
        n <= text.len(),
    ensures
        wanted(glyphs, text, n).no_duplicates(),
        forall|i: int|
            0 <= i < n && special_place(text[i]) is None && permanent_place(text[i]) is None
                && keysym_of(glyphs, text[i]) is Some ==> wanted(glyphs, text, n).contains(
                #[trigger] text[i],
            ),
        forall|j: int|
            0 <= j < wanted(glyphs, text, n).len() ==> takes_place(
                #[trigger] wanted(glyphs, text, n)[j],
            ) && keysym_of(glyphs, wanted(glyphs, text, n)[j]) is Some,
    decreases n,
{
    if n > 0 {
        wanted_covers(glyphs, text, (n - 1) as nat);
        let before = wanted(glyphs, text, (n - 1) as nat);
        let now = wanted(glyphs, text, n);
        assert forall|i: int|
            0 <= i < n && special_place(text[i]) is None && permanent_place(text[i]) is None
                && keysym_of(glyphs, text[i]) is Some implies now.contains(#[trigger] text[i]) by {
            if before.contains(text[i]) {
                let j = choose|j: int| 0 <= j < before.len() && before[j] == text[i];
                assert(now[j] == text[i]);
            } else {
                assert(now[before.len() as int] == text[i]);
            }
        }
    }
}

/// A text of ASCII, line breaks and tabs needs no place: it is typed with the
/// keymap at hand.
pub proof fn ascii_needs_no_place(glyphs: Seq<Glyph>, text: Seq<char>, n: nat)
    requires
        n <= text.len(),
        forall|i: int|
            0 <= i < text.len() ==> special_place(#[trigger] text[i]) is Some || 0x20 <= text[i]
                as u32 <= 0x7e,
    ensures
        wanted(glyphs, text, n) == Seq::<char>::empty(),
    decreases n,
{
    if n > 0 {
        ascii_needs_no_place(glyphs, text, (n - 1) as nat);
        if special_place(text[n - 1]) is None {
            printable_ascii_is_permanent(text[n - 1], seq![]);
        }
    }
}

proof fn without_members(s: Seq<char>, known: Seq<char>)
    requires
        s.no_duplicates(),
    ensures
        without(s, known).no_duplicates(),
        forall|c: char|
            #![trigger without(s, known).contains(c)]
            #![trigger s.contains(c)]
            without(s, known).contains(c) <==> s.contains(c) && !known.contains(c),
    decreases s.len(),
{
    if s.len() > 0 {
        let front = s.drop_last();
        without_members(front, known);
        let rest = without(front, known);
        let now = without(s, known);
        assert forall|c: char| now.contains(c) <==> s.contains(c) && !known.contains(c) by {
            if now.contains(c) {
                let i = choose|i: int| 0 <= i < now.len() && now[i] == c;
                if i < rest.len() {
                    assert(rest[i] == c);
                    assert(rest.contains(c));
                    let k = choose|k: int| 0 <= k < front.len() && front[k] == c;
                    assert(s[k] == c);
                } else {
                    assert(s[s.len() - 1] == c);
                }
            }
            if s.contains(c) && !known.contains(c) {
                let k = choose|k: int| 0 <= k < s.len() && s[k] == c;
                if k < front.len() {
                    assert(front[k] == c);
                    assert(rest.contains(c));
                    let i = choose|i: int| 0 <= i < rest.len() && rest[i] == c;
                    assert(now[i] == c);
                } else {
                    assert(now[rest.len() as int] == c);
                }
            }
        }
        if !known.contains(s.last()) {
            assert(!rest.contains(s.last())) by {
                if rest.contains(s.last()) {
                    assert(front.contains(s.last()));
                    let k = choose|k: int| 0 <= k < front.len() && front[k] == s.last();
                    assert(s[k] == s[s.len() - 1]);
                }
            }
        }
    }
}

/// Eviction keeps every needed character, invents and repeats none.
pub proof fn eviction_keeps_needed(s: Seq<char>, needed: Seq<char>, k: int)
    ensures
        forall|c: char|
            #[trigger] s.contains(c) && needed.contains(c) ==> evict(s, needed, k).contains(c),
        forall|c: char| #[trigger] evict(s, needed, k).contains(c) ==> s.contains(c),
        s.no_duplicates() ==> evict(s, needed, k).no_duplicates(),
    decreases s.len(),
{
    if s.len() > 0 {
        let rest = s.drop_first();
        let k2 = if k > 0 && !needed.contains(s[0]) {
            k - 1
        } else {
            k
        };
        eviction_keeps_needed(rest, needed, k2);
        let kept = evict(rest, needed, k2);
        let now = evict(s, needed, k);
        assert forall|c: char| #[trigger] s.contains(c) && needed.contains(c) implies now.contains(
            c,
        ) by {
            let i = choose|i: int| 0 <= i < s.len() && s[i] == c;
            if i > 0 {
                assert(rest[i - 1] == c);
                assert(rest.contains(c));
                let j = choose|j: int| 0 <= j < kept.len() && kept[j] == c;
                if now.len() == kept.len() {
                    assert(now[j] == c);
                } else {
                    assert(now[j + 1] == c);
                }
            } else {
                assert(now[0] == c);
            }
        }
        assert forall|c: char| #[trigger] now.contains(c) implies s.contains(c) by {
            let j = choose|j: int| 0 <= j < now.len() && now[j] == c;
            if k > 0 && !needed.contains(s[0]) {
                assert(kept.contains(c));
                let i = choose|i: int| 0 <= i < rest.len() && rest[i] == c;
                assert(s[i + 1] == c);
            } else if j > 0 {
                assert(kept[j - 1] == c);
                assert(kept.contains(c));
                let i = choose|i: int| 0 <= i < rest.len() && rest[i] == c;
                assert(s[i + 1] == c);
            } else {
                assert(s[0] == c);
            }
        }
        if s.no_duplicates() {
            assert(rest.no_duplicates());
            assert(!rest.contains(s[0])) by {
                if rest.contains(s[0]) {
                    let i = choose|i: int| 0 <= i < rest.len() && rest[i] == s[0];
                    assert(s[i + 1] == s[0]);
                }
            }
            assert(!kept.contains(s[0]));
            if !(k > 0 && !needed.contains(s[0])) {
                assert forall|i: int, j: int| 0 <= i < now.len() && 0 <= j < now.len() && i
                    != j implies now[i] != now[j] by {
                    if i > 0 && j > 0 {
                        assert(kept[i - 1] != kept[j - 1]);
                    } else if i > 0 {
                        assert(kept.contains(kept[i - 1]));
                    } else {
                        assert(kept.contains(kept[j - 1]));
                    }
                }
            }
        }
    }
}

/// The members of `s` that are in `needed`.
spec fn common(s: Seq<char>, needed: Seq<char>) -> Seq<char>
    decreases s.len(),
{
    if s.len() == 0 {
        seq![]
    } else if needed.contains(s[0]) {
        seq![s[0]] + common(s.drop_first(), needed)
    } else {
        common(s.drop_first(), needed)
    }
}

proof fn common_members(s: Seq<char>, needed: Seq<char>)
    ensures
        common(s, needed).len() <= s.len(),
        forall|c: char|
            #[trigger] common(s, needed).contains(c) ==> s.contains(c) && needed.contains(c),
        s.no_duplicates() ==> common(s, needed).no_duplicates(),
    decreases s.len(),
{
    if s.len() > 0 {
        let rest = s.drop_first();
        common_members(rest, needed);
        let kept = common(rest, needed);
        let now = common(s, needed);
        assert forall|c: char| #[trigger] now.contains(c) implies s.contains(c) && needed.contains(
            c,
        ) by {
            let j = choose|j: int| 0 <= j < now.len() && now[j] == c;
            if needed.contains(s[0]) && j == 0 {
                assert(s[0] == c);
            } else {
                let q = if needed.contains(s[0]) {
                    j - 1
                } else {
                    j
                };
                assert(kept[q] == c);
                assert(kept.contains(c));
                let i = choose|i: int| 0 <= i < rest.len() && rest[i] == c;
                assert(s[i + 1] == c);
            }
        }
        if s.no_duplicates() {
            assert(rest.no_duplicates());
            assert(!kept.contains(s[0])) by {
                if kept.contains(s[0]) {
                    let i = choose|i: int| 0 <= i < rest.len() && rest[i] == s[0];
                    assert(s[i + 1] == s[0]);
                }
            }
            if needed.contains(s[0]) {
                assert forall|i: int, j: int| 0 <= i < now.len() && 0 <= j < now.len() && i
                    != j implies now[i] != now[j] by {
                    if i > 0 && j > 0 {
                        assert(kept[i - 1] != kept[j - 1]);
                    } else if i > 0 {
                        assert(kept.contains(kept[i - 1]));
                    } else {
                        assert(kept.contains(kept[j - 1]));
                    }
                }
            }
        }
    }
}

proof fn evict_len(s: Seq<char>, needed: Seq<char>, k: int)
    requires
        k >= 0,
    ensures
        evict(s, needed, k).len() == (if k <= s.len() - common(s, needed).len() {
            s.len() - k
        } else {
            common(s, needed).len() as int
        }),
    decreases s.len(),
{
    if s.len() > 0 {
        common_members(s.drop_first(), needed);
        if k > 0 && !needed.contains(s[0]) {
            evict_len(s.drop_first(), needed, k - 1);
        } else {
            evict_len(s.drop_first(), needed, k);
        }
    }
}

proof fn distinct_fit(a: Seq<char>, b: Seq<char>)
    requires
        a.no_duplicates(),
        forall|c: char| #[trigger] a.contains(c) ==> b.contains(c),
    ensures
        a.len() <= b.len(),
{
    a.unique_seq_to_set();
    b.lemma_cardinality_of_set();
    assert(a.to_set().subset_of(b.to_set())) by {
        assert forall|c: char| a.to_set().contains(c) implies b.to_set().contains(c) by {
            assert(a.contains(c));
        }
    }
    vstd::set_lib::lemma_len_subset(a.to_set(), b.to_set());
}

/// Whether the keyboard's list of characters and its uploaded keymap agree:
/// the listed characters, each listed once, are those that have a place.
pub open spec fn in_step(ordered: Seq<char>, dynamic: Seq<char>) -> bool {
    &&& ordered.no_duplicates()
    &&& ordered.len() <= SAFE_KEYS
    &&& forall|c: char| #[trigger] ordered.contains(c) ==> dynamic.contains(c)
    &&& forall|c: char| #[trigger] dynamic.contains(c) ==> ordered.contains(c)
}

/// Whether every character of a text is typed where `dynamic` are placed:
/// through Return or Tab, or through a key of its own. Only characters without
/// a keysym are excepted.
pub open spec fn all_typed(glyphs: Seq<Glyph>, dynamic: Seq<char>, text: Seq<char>) -> bool {
    forall|i: int|
        0 <= i < text.len() && keysym_of(glyphs, #[trigger] text[i]) is Some ==> special_place(
            text[i],
        ) is Some || place(dynamic, text[i]) is Some
}

/// A text that brings no new character is typed in full with the keymap at
/// hand.
pub proof fn known_text_is_typed(glyphs: Seq<Glyph>, dynamic: Seq<char>, text: Seq<char>)
    requires
        without(wanted(glyphs, text, text.len()), dynamic).len() == 0,
    ensures
        all_typed(glyphs, dynamic, text),
{
    let w = wanted(glyphs, text, text.len());
    wanted_covers(glyphs, text, text.len());
    without_members(w, dynamic);
    assert forall|i: int|
        0 <= i < text.len() && keysym_of(glyphs, #[trigger] text[i]) is Some implies special_place(
        text[i],
    ) is Some || place(dynamic, text[i]) is Some by {
        if special_place(text[i]) is None && permanent_place(text[i]) is None {
            assert(w.contains(text[i]));
            if !dynamic.contains(text[i]) {
                assert(without(w, dynamic).contains(text[i]));
            }
            slot_in_range(dynamic, text[i], 0);
        }
    }
}

/// A new keymap for a text that fits in one keymap has room for it: it lists
/// every character that the text needs, none twice, and no more than there
/// are keys. So once it is uploaded, the text is typed in full, and the
/// keyboard is in step again.
pub proof fn new_keymap_covers_text(
    glyphs: Seq<Glyph>,
    ordered: Seq<char>,
    dynamic: Seq<char>,
    text: Seq<char>,
)
    requires
        in_step(ordered, dynamic),
        wanted(glyphs, text, text.len()).len() <= SAFE_KEYS,
        forall|c: char|
            #[trigger] next_chars(
                ordered,
                wanted(glyphs, text, text.len()),
                dynamic,
            ).contains(c) ==> placeable(glyphs, c),
    ensures
        ({
            let next = next_chars(ordered, wanted(glyphs, text, text.len()), dynamic);
            let uploaded = placed(glyphs, next, next.len());
            in_step(next, uploaded) && all_typed(glyphs, uploaded, text)
        }),
{
    let w = wanted(glyphs, text, text.len());
    wanted_covers(glyphs, text, text.len());
    let fresh = without(w, dynamic);
    without_members(w, dynamic);
    let all = ordered + fresh;
    let next = next_chars(ordered, w, dynamic);
    assert(all.no_duplicates()) by {
        assert forall|i: int, j: int| 0 <= i < all.len() && 0 <= j < all.len() && i
            != j implies all[i] != all[j] by {
            if i < ordered.len() && j >= ordered.len() {
                assert(ordered.contains(ordered[i]));
                assert(fresh.contains(fresh[j - ordered.len()]));
            } else if j < ordered.len() && i >= ordered.len() {
                assert(ordered.contains(ordered[j]));
                assert(fresh.contains(fresh[i - ordered.len()]));
            }
        }
    }
    assert(next.no_duplicates() && next.len() <= SAFE_KEYS) by {
        if all.len() > SAFE_KEYS {
            let k = all.len() - SAFE_KEYS;
            eviction_keeps_needed(all, w, k);
            evict_len(all, w, k);
            common_members(all, w);
            distinct_fit(common(all, w), w);
        }
    }
    assert forall|c: char| #[trigger] w.contains(c) implies next.contains(c) by {
        if ordered.contains(c) {
            let i = choose|i: int| 0 <= i < ordered.len() && ordered[i] == c;
            assert(all[i] == c);
        } else {
            assert(!dynamic.contains(c));
            assert(fresh.contains(c));
            let i = choose|i: int| 0 <= i < fresh.len() && fresh[i] == c;
            assert(all[ordered.len() + i] == c);
        }
        assert(all.contains(c));
        if all.len() > SAFE_KEYS {
            eviction_keeps_needed(all, w, all.len() - SAFE_KEYS);
        }
    }
    let uploaded = placed(glyphs, next, next.len());
    assert forall|c: char| #[trigger] next.contains(c) implies uploaded.contains(c) by {
        let i = choose|i: int| 0 <= i < next.len() && next[i] == c;
        all_fit(glyphs, next, next.len(), i);
    }
    placed_distinct(glyphs, next, next.len());
    assert(next.take(next.len() as int) =~= next);
    assert forall|c: char| #[trigger] uploaded.contains(c) implies next.contains(c) by {
        let j = choose|j: int| 0 <= j < uploaded.len() && uploaded[j] == c;
        assert(next.take(next.len() as int).contains(uploaded[j]));
    }
    assert forall|i: int|
        0 <= i < text.len() && keysym_of(glyphs, #[trigger] text[i]) is Some implies special_place(
        text[i],
    ) is Some || place(uploaded, text[i]) is Some by {
        if special_place(text[i]) is None && permanent_place(text[i]) is None {
            assert(w.contains(text[i]));
            assert(next.contains(text[i]));
            slot_in_range(uploaded, text[i], 0);
        }
    }
}

/// The text of a list of batches.
pub open spec fn batches_text(b: Seq<(Option<Seq<char>>, Seq<char>)>) -> Seq<char>
    decreases b.len(),
{
    if b.len() == 0 {
        seq![]
    } else {
        b[0].1 + batches_text(b.drop_first())
    }
}

proof fn batch_chars_cover(text: Seq<char>, start: int, end: int, i: int)
    requires
        0 <= start <= i < end <= text.len(),
        takes_place(text[i]),
    ensures
        batch_chars(text, start, end).contains(text[i]),
    decreases end - start,
{
    let before = batch_chars(text, start, end - 1);
    let now = batch_chars(text, start, end);
    if i < end - 1 {
        batch_chars_cover(text, start, end - 1, i);
    }
    if before.contains(text[i]) {
        let j = choose|j: int| 0 <= j < before.len() && before[j] == text[i];
        assert(now[j] == text[i]);
    } else {
        assert(now[before.len() as int] == text[i]);
    }
}

/// Cutting a text into batches loses nothing: the batches, one after the
/// other, are the text.
pub proof fn batches_are_the_text(text: Seq<char>, start: int)
    requires
        0 <= start <= text.len(),
    ensures
        batches_text(batches_from(text, start)) == text.skip(start),
    decreases text.len() - start,
{
    if start < text.len() {
        batch_end_progress(text, start, start);
        let end = batch_end(text, start, start);
        batches_are_the_text(text, end);
        let b = batches_from(text, start);
        assert(b.drop_first() =~= batches_from(text, end));
        assert(b[0].1 == text.subrange(start, end));
        assert(text.skip(start) =~= text.subrange(start, end) + text.skip(end));
    } else {
        assert(text.skip(start) =~= seq![]);
    }
}

/// Each batch has a keymap of its own that lists every character of the batch
/// that takes a place, and no more characters than there are keys.
pub proof fn batches_fit(text: Seq<char>, start: int, k: int)
    requires
        0 <= start <= text.len(),
        0 <= k < batches_from(text, start).len(),
    ensures
        batches_from(text, start)[k].0 matches Some(chars) && chars.len() <= SAFE_KEYS && forall|
            i: int,
        |
            0 <= i < batches_from(text, start)[k].1.len() && takes_place(
                #[trigger] batches_from(text, start)[k].1[i],
            ) ==> chars.contains(batches_from(text, start)[k].1[i]),
    decreases text.len() - start,
{
    if start < text.len() {
        batch_end_progress(text, start, start);
        let end = batch_end(text, start, start);
        let b = batches_from(text, start);
        if k == 0 {
            let chars = batch_chars(text, start, end);
            assert forall|i: int| 0 <= i < b[0].1.len() && takes_place(#[trigger] b[0].1[i]) implies
                chars.contains(b[0].1[i]) by {
                batch_chars_cover(text, start, end, start + i);
            }
        } else {
            batches_fit(text, end, k - 1);
            assert(b[k] == batches_from(text, end)[k - 1]);
        }
    }
}

/// With the keymap of its batch, every stretch of a text that was cut into
/// batches is typed in full.
pub proof fn batch_is_typed(glyphs: Seq<Glyph>, text: Seq<char>, k: int)
    requires
        0 <= k < batches_from(text, 0).len(),
        forall|i: int|
            0 <= i < text.len() && keysym_of(glyphs, #[trigger] text[i]) is Some && takes_place(
                text[i],
            ) ==> placeable(glyphs, text[i]),
    ensures
        batches_from(text, 0)[k].0 matches Some(chars) && all_typed(
            glyphs,
            placed(glyphs, chars, chars.len()),
            batches_from(text, 0)[k].1,
        ),
{
    batches_fit(text, 0, k);
    batch_is_part(text, 0, k);
    let part = batches_from(text, 0)[k].1;
    let chars = batches_from(text, 0)[k].0->0;
    let uploaded = placed(glyphs, chars, chars.len());
    assert forall|i: int|
        0 <= i < part.len() && keysym_of(glyphs, #[trigger] part[i]) is Some implies special_place(
        part[i],
    ) is Some || place(uploaded, part[i]) is Some by {
        if takes_place(part[i]) {
            assert(text.contains(part[i]));
            let q = choose|q: int| 0 <= q < text.len() && text[q] == part[i];
            assert(placeable(glyphs, text[q]));
            let j = choose|j: int| 0 <= j < chars.len() && chars[j] == part[i];
            all_fit(glyphs, chars, chars.len(), j);
            slot_in_range(uploaded, part[i], 0);
        }
    }
}

proof fn batch_is_part(text: Seq<char>, start: int, k: int)
    requires
        0 <= start <= text.len(),
        0 <= k < batches_from(text, start).len(),
    ensures
        forall|i: int|
            0 <= i < batches_from(text, start)[k].1.len() ==> text.contains(
                #[trigger] batches_from(text, start)[k].1[i],
            ),
    decreases text.len() - start,
{
    if start < text.len() {
        batch_end_progress(text, start, start);
        let end = batch_end(text, start, start);
        let b = batches_from(text, start);
        if k == 0 {
            assert forall|i: int| 0 <= i < b[0].1.len() implies text.contains(
                #[trigger] b[0].1[i],
            ) by {
                assert(b[0].1[i] == text[start + i]);
            }
        } else {
            batch_is_part(text, end, k - 1);
            assert(b[k] == batches_from(text, end)[k - 1]);
        }
    }
}

} // verus!
