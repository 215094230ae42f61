//! What typing keeps: read through the keymap, the key events are the text
//! again.

use crate::keyboard::keymap::{
    ascii_definitions, ascii_row, ascii_symbol, ascii_symbols, base_definitions, base_row,
    base_symbol, base_symbols, definition, fixed_keycode, keymap_text, keysym_of, modifier_map,
    permanent_place, placeable, placed, safe_keycode, slot_from, special_place, CharKey, FixedKey,
    Glyph, Level, ALTGR_XKB_KEYCODE, ASCII_KEYS, BASE_KEYS, CTRL_XKB_KEYCODE, MAX_KEYCODE,
    SAFE_KEYS, SHIFT_XKB_KEYCODE,
};
use crate::keyboard::laws::{
    eviction_keeps_needed, found_in_its_row, permanent_is_printable_ascii, placed_distinct,
    printable_ascii_is_permanent, slot_in_range,
};
use crate::keyboard::typing::{
    batch_chars, batch_end, batch_end_progress, batches_from, char_events, combo_events_of,
    dynamic_char, evict, is_ctrl, is_shift, level_mask, next_chars, plain_keys, takes_place, tap,
    tap_at_level, text_events, wanted, wire, without, KeyEvent,
};
use crate::text::{decimal, has_text, opt_text};
use vstd::prelude::*;

verus! {

/// The two characters of a key of the stock `us` layout, by its evdev keycode:
/// the number row, the three letter rows, grave, backslash and space.
pub open spec fn us_key(code: int) -> Option<(char, char)> {
    if 2 <= code <= 13 {
        Some(
            (
                seq!['1', '2', '3', '4', '5', '6', '7', '8', '9', '0', '-', '='][code - 2],
                seq!['!', '@', '#', '$', '%', '^', '&', '*', '(', ')', '_', '+'][code - 2],
            ),
        )
    } else if 16 <= code <= 27 {
        Some(
            (
                seq!['q', 'w', 'e', 'r', 't', 'y', 'u', 'i', 'o', 'p', '[', ']'][code - 16],
                seq!['Q', 'W', 'E', 'R', 'T', 'Y', 'U', 'I', 'O', 'P', '{', '}'][code - 16],
            ),
        )
    } else if 30 <= code <= 40 {
        Some(
            (
                seq!['a', 's', 'd', 'f', 'g', 'h', 'j', 'k', 'l', ';', '\''][code - 30],
                seq!['A', 'S', 'D', 'F', 'G', 'H', 'J', 'K', 'L', ':', '"'][code - 30],
            ),
        )
    } else if 44 <= code <= 53 {
        Some(
            (
                seq!['z', 'x', 'c', 'v', 'b', 'n', 'm', ',', '.', '/'][code - 44],
                seq!['Z', 'X', 'C', 'V', 'B', 'N', 'M', '<', '>', '?'][code - 44],
            ),
        )
    } else if code == 41 {
        Some(('`', '~'))
    } else if code == 43 {
        Some(('\\', '|'))
    } else if code == 57 {
        Some((' ', ' '))
    } else {
        None
    }
}

/// Which of the placed characters stands at the AltGr level of a key: the keys
/// of the four rows are given out in order.
pub open spec fn altgr_slot(code: int) -> int {
    if 2 <= code <= 13 {
        code - 2
    } else if 16 <= code <= 27 {
        code - 4
    } else if 30 <= code <= 40 {
        code - 6
    } else if 44 <= code <= 53 {
        code - 9
    } else {
        -1
    }
}

/// What a compositor reads where a key is pressed under the declared
/// modifiers, with a keymap in which `dynamic` are placed: none, Shift or
/// AltGr.
pub open spec fn read_key(dynamic: Seq<char>, code: int, modifiers: u32) -> Option<char> {
    if code == 28 && modifiers == 0 {
        Some('\n')
    } else if code == 15 && modifiers == 0 {
        Some('\t')
    } else if modifiers == 128 {
        if 0 <= altgr_slot(code) < dynamic.len() {
            Some(dynamic[altgr_slot(code)])
        } else {
            None
        }
    } else {
        match us_key(code) {
            Some((base, shifted)) => if modifiers == 0 {
                Some(base)
            } else if modifiers == 1 {
                Some(shifted)
            } else {
                None
            },
            None => None,
        }
    }
}

/// What a compositor makes of events, from the declared modifiers on: the text
/// that appears, and the modifiers that are declared after it. A key that
/// reads as nothing is marked, so that it cannot go unnoticed.
pub open spec fn read_back(dynamic: Seq<char>, modifiers: u32, events: Seq<KeyEvent>) -> (
    Seq<Option<char>>,
    u32,
)
    decreases events.len(),
{
    if events.len() == 0 {
        (seq![], modifiers)
    } else {
        match events[0] {
            KeyEvent::Modifiers(m) => read_back(dynamic, m, events.drop_first()),
            KeyEvent::Release(_) => read_back(dynamic, modifiers, events.drop_first()),
            KeyEvent::Press(code) => {
                let rest = read_back(dynamic, modifiers, events.drop_first());
                (seq![read_key(dynamic, code as int, modifiers)] + rest.0, rest.1)
            },
        }
    }
}

/// Whether a character can be typed with a keymap in which `dynamic` are
/// placed: a line break, a tab, printable ASCII, and what is placed.
pub open spec fn typable(dynamic: Seq<char>, c: char) -> bool {
    c == '\n' || c == '\t' || 0x20 <= c as u32 <= 0x7e || dynamic.contains(c)
}

/// The characters among the first `n` of a text that can be typed, in order,
/// as often as they stand there.
pub open spec fn typable_text(dynamic: Seq<char>, text: Seq<char>, n: nat) -> Seq<Option<char>>
    decreases n,
{
    if n == 0 {
        seq![]
    } else if typable(dynamic, text[n - 1]) {
        typable_text(dynamic, text, (n - 1) as nat).push(Some(text[n - 1]))
    } else {
        typable_text(dynamic, text, (n - 1) as nat)
    }
}

proof fn reading_goes_on(dynamic: Seq<char>, modifiers: u32, a: Seq<KeyEvent>, b: Seq<KeyEvent>)
    ensures
        ({
            let first = read_back(dynamic, modifiers, a);
            let second = read_back(dynamic, first.1, b);
            read_back(dynamic, modifiers, a + b) == (first.0 + second.0, second.1)
        }),
    decreases a.len(),
{
    if a.len() == 0 {
        assert(a + b =~= b);
        let second = read_back(dynamic, modifiers, b);
        assert(Seq::<Option<char>>::empty() + second.0 =~= second.0);
    } else {
        assert((a + b)[0] == a[0]);
        assert((a + b).drop_first() =~= a.drop_first() + b);
        match a[0] {
            KeyEvent::Modifiers(m) => reading_goes_on(dynamic, m, a.drop_first(), b),
            KeyEvent::Release(_) => reading_goes_on(dynamic, modifiers, a.drop_first(), b),
            KeyEvent::Press(code) => {
                reading_goes_on(dynamic, modifiers, a.drop_first(), b);
                let first = read_back(dynamic, modifiers, a.drop_first());
                let second = read_back(dynamic, first.1, b);
                let c = read_key(dynamic, code as int, modifiers);
                assert(seq![c] + (first.0 + second.0) =~= (seq![c] + first.0) + second.0);
            },
        }
    }
}

proof fn tap_is_read(dynamic: Seq<char>, modifiers: u32, keycode: u32)
    ensures
        read_back(dynamic, modifiers, tap(keycode)) == (
            seq![read_key(dynamic, wire(keycode) as int, modifiers)],
            modifiers,
        ),
{
    let e = tap(keycode);
    reveal_with_fuel(read_back, 3);
    assert(e.drop_first()[0] == e[1]);
    assert(e.drop_first().drop_first() =~= Seq::<KeyEvent>::empty());
    assert(seq![read_key(dynamic, wire(keycode) as int, modifiers)] + Seq::<Option<char>>::empty()
        =~= seq![read_key(dynamic, wire(keycode) as int, modifiers)]);
}

proof fn one_event_is_read(dynamic: Seq<char>, modifiers: u32, m: u32)
    ensures
        read_back(dynamic, modifiers, seq![KeyEvent::Modifiers(m)]) == (
            Seq::<Option<char>>::empty(),
            m,
        ),
{
    let e = seq![KeyEvent::Modifiers(m)];
    assert(e.drop_first() =~= Seq::<KeyEvent>::empty());
    reveal_with_fuel(read_back, 2);
}

proof fn level_tap_is_read(dynamic: Seq<char>, k: CharKey)
    ensures
        read_back(dynamic, 0, tap_at_level(k)) == (
            seq![read_key(dynamic, wire(k.keycode) as int, level_mask(k.level))],
            0u32,
        ),
{
    let mask = level_mask(k.level);
    if mask == 0 {
        tap_is_read(dynamic, 0, k.keycode);
    } else {
        let c = read_key(dynamic, wire(k.keycode) as int, mask);
        let up = seq![KeyEvent::Modifiers(mask)];
        let down = seq![KeyEvent::Modifiers(0u32)];
        one_event_is_read(dynamic, 0, mask);
        tap_is_read(dynamic, mask, k.keycode);
        one_event_is_read(dynamic, mask, 0);
        reading_goes_on(dynamic, 0, up, tap(k.keycode));
        reading_goes_on(dynamic, 0, up + tap(k.keycode), down);
        assert(Seq::<Option<char>>::empty() + seq![c] =~= seq![c]);
        assert(seq![c] + Seq::<Option<char>>::empty() =~= seq![c]);
    }
}

/// The keys that carry ASCII are those of the stock `us` layout, each with the
/// characters that it has there, and the first of them, in order, have an AltGr
/// level to give out.
pub proof fn keys_are_those_of_the_us_layout(i: int)
    requires
        0 <= i < ASCII_KEYS,
    ensures
        us_key(ascii_row(i).0.keycode - 8) == Some((ascii_row(i).0.base, ascii_row(i).0.shifted)),
        i < SAFE_KEYS ==> altgr_slot(ascii_row(i).0.keycode - 8) == i,
        ascii_row(i).0.keycode - 8 != 28 && ascii_row(i).0.keycode - 8 != 15,
{
}

proof fn char_is_read(dynamic: Seq<char>, c: char)
    requires
        dynamic.len() <= SAFE_KEYS,
    ensures
        read_back(dynamic, 0, char_events(dynamic, c)) == (
            if typable(dynamic, c) {
                seq![Some(c)]
            } else {
                seq![]
            },
            0u32,
        ),
{
    match special_place(c) {
        Some(keycode) => {
            tap_is_read(dynamic, 0, keycode);
        },
        None => {
            slot_in_range(dynamic, c, 0);
            match permanent_place(c) {
                Some(k) => {
                    permanent_is_printable_ascii(c);
                    found_in_its_row(c, 0);
                    let j = choose|j: int|
                        0 <= j < ASCII_KEYS && (#[trigger] ascii_row(j)).0.keycode == k.keycode
                            && (k.level == Level::Base && ascii_row(j).0.base == c || k.level
                            == Level::Shift && ascii_row(j).0.shifted == c);
                    keys_are_those_of_the_us_layout(j);
                    level_tap_is_read(dynamic, k);
                    assert(wire(k.keycode) == k.keycode - 8);
                },
                None => {
                    if 0x20 <= c as u32 <= 0x7e {
                        printable_ascii_is_permanent(c, dynamic);
                    }
                    match slot_from(dynamic, c, 0) {
                        Some(j) => {
                            assert(dynamic[j] == c);
                            keys_are_those_of_the_us_layout(j);
                            let k = CharKey { keycode: safe_keycode(j), level: Level::AltGr };
                            level_tap_is_read(dynamic, k);
                            assert(wire(k.keycode) == k.keycode - 8);
                        },
                        None => {
                            assert(!dynamic.contains(c));
                        },
                    }
                },
            }
        },
    }
}

/// Read through the keymap, the events of a text are the text: one character
/// for each press, in order and as often as it stands there, less only the
/// characters that have no place. After it no modifier is declared.
pub proof fn events_read_as_the_text(dynamic: Seq<char>, text: Seq<char>, n: nat)
    requires
        dynamic.len() <= SAFE_KEYS,
        n <= text.len(),
    ensures
        read_back(dynamic, 0, text_events(dynamic, text, n)) == (
            typable_text(dynamic, text, n),
            0u32,
        ),
    decreases n,
{
    if n > 0 {
        events_read_as_the_text(dynamic, text, (n - 1) as nat);
        char_is_read(dynamic, text[n - 1]);
        let before = text_events(dynamic, text, (n - 1) as nat);
        reading_goes_on(dynamic, 0, before, char_events(dynamic, text[n - 1]));
        let so_far = typable_text(dynamic, text, (n - 1) as nat);
        assert(so_far + seq![Some(text[n - 1])] =~= so_far.push(Some(text[n - 1])));
        assert(so_far + Seq::<Option<char>>::empty() =~= so_far);
    }
}

/// A text of which every character can be typed appears whole.
pub proof fn typable_text_appears_whole(dynamic: Seq<char>, text: Seq<char>, n: nat)
    requires
        dynamic.len() <= SAFE_KEYS,
        n <= text.len(),
        forall|i: int| 0 <= i < text.len() ==> typable(dynamic, #[trigger] text[i]),
    ensures
        read_back(dynamic, 0, text_events(dynamic, text, n)).0 == Seq::new(
            n,
            |i: int| Some(text[i]),
        ),
    decreases n,
{
    events_read_as_the_text(dynamic, text, n);
    if n > 0 {
        typable_text_appears_whole(dynamic, text, (n - 1) as nat);
        events_read_as_the_text(dynamic, text, (n - 1) as nat);
        assert(typable(dynamic, text[n - 1]));
        assert(typable_text(dynamic, text, n) =~= Seq::new(n, |i: int| Some(text[i])));
    } else {
        assert(typable_text(dynamic, text, n) =~= Seq::new(n, |i: int| Some(text[i])));
    }
}

/// Every key that is pressed is released at once, before anything else
/// happens, and nothing else is ever released.
pub proof fn pressed_keys_are_released(dynamic: Seq<char>, text: Seq<char>, n: nat)
    requires
        n <= text.len(),
    ensures
        ({
            let e = text_events(dynamic, text, n);
            &&& forall|i: int|
                0 <= i < e.len() ==> ((#[trigger] e[i]) matches KeyEvent::Press(code) ==> i + 1
                    < e.len() && e[i + 1] == KeyEvent::Release(code))
            &&& forall|i: int|
                0 <= i < e.len() ==> ((#[trigger] e[i]) matches KeyEvent::Release(code) ==> i > 0
                    && e[i - 1] == KeyEvent::Press(code))
        }),
    decreases n,
{
    if n > 0 {
        pressed_keys_are_released(dynamic, text, (n - 1) as nat);
        let a = text_events(dynamic, text, (n - 1) as nat);
        let b = char_events(dynamic, text[n - 1]);
        let e = text_events(dynamic, text, n);
        assert(e == a + b);
        assert forall|i: int| 0 <= i < e.len() implies ((#[trigger] e[i]) matches KeyEvent::Press(
            code,
        ) ==> i + 1 < e.len() && e[i + 1] == KeyEvent::Release(code)) by {
            if i < a.len() {
                assert(e[i] == a[i]);
                if i + 1 < a.len() {
                    assert(e[i + 1] == a[i + 1]);
                }
            } else {
                assert(e[i] == b[i - a.len()]);
            }
        }
        assert forall|i: int| 0 <= i < e.len() implies ((#[trigger] e[i]) matches KeyEvent::Release(
            code,
        ) ==> i > 0 && e[i - 1] == KeyEvent::Press(code)) by {
            if i < a.len() {
                assert(e[i] == a[i]);
                if i > 0 {
                    assert(e[i - 1] == a[i - 1]);
                }
            } else {
                assert(e[i] == b[i - a.len()]);
                if i - 1 >= a.len() {
                    assert(e[i - 1] == b[i - 1 - a.len()]);
                }
            }
        }
    }
}

/// Backspace is the key 14, and is pressed and released without a modifier.
pub proof fn backspace_is_one_tap()
    ensures
        tap(fixed_keycode(FixedKey::Backspace)) == seq![KeyEvent::Press(14u32), KeyEvent::Release(14u32)],
{
    assert(wire(fixed_keycode(FixedKey::Backspace)) == 14);
}

/// Whether an evdev code is that of a Control or a Shift key.
pub open spec fn is_modifier_code(code: u16) -> bool {
    code == 29 || code == 97 || code == 42 || code == 54
}

proof fn plain_keys_members(keys: Seq<u16>, n: nat)
    requires
        n <= keys.len(),
    ensures
        plain_keys(keys, n).len() <= n,
        forall|i: int|
            0 <= i < plain_keys(keys, n).len() ==> !is_modifier_code(
                #[trigger] plain_keys(keys, n)[i],
            ) && keys.take(n as int).contains(plain_keys(keys, n)[i]),
        forall|i: int|
            0 <= i < n && !is_modifier_code(#[trigger] keys[i]) ==> plain_keys(keys, n).contains(
                keys[i],
            ),
        (forall|i: int| 0 <= i < n ==> !is_modifier_code(#[trigger] keys[i])) ==> plain_keys(
            keys,
            n,
        ) == keys.take(n as int),
    decreases n,
{
    if n > 0 {
        plain_keys_members(keys, (n - 1) as nat);
        let before = plain_keys(keys, (n - 1) as nat);
        let now = plain_keys(keys, n);
        let head = keys.take(n - 1);
        let all = keys.take(n as int);
        assert(all =~= head.push(keys[n - 1]));
        assert forall|i: int| 0 <= i < now.len() implies !is_modifier_code(#[trigger] now[i])
            && all.contains(now[i]) by {
            if i < before.len() {
                assert(now[i] == before[i]);
                assert(head.contains(before[i]));
                let q = choose|q: int| 0 <= q < head.len() && head[q] == before[i];
                assert(all[q] == now[i]);
            } else {
                assert(all[n - 1] == now[i]);
            }
        }
        assert forall|i: int| 0 <= i < n && !is_modifier_code(
            #[trigger] keys[i],
        ) implies now.contains(keys[i]) by {
            if i < n - 1 {
                assert(before.contains(keys[i]));
                let q = choose|q: int| 0 <= q < before.len() && before[q] == keys[i];
                assert(now[q] == keys[i]);
            } else {
                assert(now[before.len() as int] == keys[i]);
            }
        }
    } else {
        assert(keys.take(0) =~= Seq::<u16>::empty());
    }
}

/// A combo declares exactly the modifiers among its keys, four for Control and
/// one for Shift, before any key is pressed, and withdraws them at the end.
/// Between that it presses the other keys and releases them in reverse.
pub proof fn combo_holds_its_modifiers(keys: Seq<u16>)
    ensures
        ({
            let ctrl = keys.contains(29u16) || keys.contains(97u16);
            let shift = keys.contains(42u16) || keys.contains(54u16);
            let mask: u32 = if ctrl && shift {
                5
            } else if ctrl {
                4
            } else if shift {
                1
            } else {
                0
            };
            let plain = plain_keys(keys, keys.len());
            let n = plain.len() as int;
            let e = combo_events_of(keys);
            let at: int = if mask == 0 {
                0
            } else {
                1
            };
            &&& e.len() == 2 * n + 2 * at
            &&& mask != 0 ==> e[0] == KeyEvent::Modifiers(mask) && e.last() == KeyEvent::Modifiers(
                0u32,
            )
            &&& forall|i: int|
                0 <= i < n ==> #[trigger] e[at + i] == KeyEvent::Press(plain[i] as u32)
            &&& forall|i: int|
                0 <= i < n ==> #[trigger] e[at + n + i] == KeyEvent::Release(
                    plain[n - 1 - i] as u32,
                )
            &&& forall|i: int|
                0 <= i < keys.len() && !is_modifier_code(#[trigger] keys[i]) ==> plain.contains(
                    keys[i],
                )
            &&& forall|i: int|
                0 <= i < n ==> !is_modifier_code(#[trigger] plain[i]) && keys.contains(plain[i])
        }),
{
    plain_keys_members(keys, keys.len());
    assert(keys.take(keys.len() as int) =~= keys);
    if keys.contains(29u16) {
        let i = choose|i: int| 0 <= i < keys.len() && keys[i] == 29u16;
        assert(is_ctrl(keys[i]));
    }
    if keys.contains(97u16) {
        let i = choose|i: int| 0 <= i < keys.len() && keys[i] == 97u16;
        assert(is_ctrl(keys[i]));
    }
    if keys.contains(42u16) {
        let i = choose|i: int| 0 <= i < keys.len() && keys[i] == 42u16;
        assert(is_shift(keys[i]));
    }
    if keys.contains(54u16) {
        let i = choose|i: int| 0 <= i < keys.len() && keys[i] == 54u16;
        assert(is_shift(keys[i]));
    }
}

/// The keys of a combo that are no modifiers keep their order: those of a list
/// come before those of what follows it.
pub proof fn plain_keys_keep_their_order(a: Seq<u16>, b: Seq<u16>, n: nat)
    requires
        n <= b.len(),
    ensures
        plain_keys(a + b, a.len() + n) == plain_keys(a, a.len()) + plain_keys(b, n),
    decreases n,
{
    if n > 0 {
        plain_keys_keep_their_order(a, b, (n - 1) as nat);
        assert((a + b)[a.len() + n - 1] == b[n - 1]);
        assert(plain_keys(a + b, a.len() + n) =~= plain_keys(a, a.len()) + plain_keys(b, n));
    } else {
        same_keys_same_plain(a, a + b, a.len());
        assert(plain_keys(a + b, a.len()) =~= plain_keys(a, a.len()) + plain_keys(b, 0));
    }
}

proof fn same_keys_same_plain(a: Seq<u16>, b: Seq<u16>, n: nat)
    requires
        n <= a.len() <= b.len(),
        forall|i: int| 0 <= i < n ==> a[i] == b[i],
    ensures
        plain_keys(a, n) == plain_keys(b, n),
    decreases n,
{
    if n > 0 {
        same_keys_same_plain(a, b, (n - 1) as nat);
    }
}

/// Where characters have to make room, the oldest go first: one that the text
/// does not need is kept only where every younger such one is kept too.
pub proof fn oldest_make_room(s: Seq<char>, needed: Seq<char>, k: int, i: int, j: int)
    requires
        s.no_duplicates(),
        0 <= i < j < s.len(),
        !needed.contains(s[i]),
        !needed.contains(s[j]),
        evict(s, needed, k).contains(s[i]),
    ensures
        evict(s, needed, k).contains(s[j]),
    decreases s.len(),
{
    let rest = s.drop_first();
    let now = evict(s, needed, k);
    assert(rest.no_duplicates());
    if k <= 0 {
        nothing_makes_room(s, needed, k);
        assert(now[j] == s[j]);
    } else if i == 0 {
        eviction_keeps_needed(rest, needed, k - 1);
        assert(now == evict(rest, needed, k - 1));
        assert(rest.contains(s[0]));
        let q = choose|q: int| 0 <= q < rest.len() && rest[q] == s[0];
        assert(s[q + 1] == s[0]);
    } else {
        let k2 = if !needed.contains(s[0]) {
            k - 1
        } else {
            k
        };
        let kept = evict(rest, needed, k2);
        assert(rest[i - 1] == s[i] && rest[j - 1] == s[j]);
        let q = choose|q: int| 0 <= q < now.len() && now[q] == s[i];
        if needed.contains(s[0]) {
            assert(q > 0);
            assert(kept[q - 1] == s[i]);
        } else {
            assert(kept[q] == s[i]);
        }
        oldest_make_room(rest, needed, k2, i - 1, j - 1);
        let p = choose|p: int| 0 <= p < kept.len() && kept[p] == s[j];
        if needed.contains(s[0]) {
            assert(now[p + 1] == s[j]);
        } else {
            assert(now[p] == s[j]);
        }
    }
}

/// Nothing makes room where no room is asked for.
pub proof fn nothing_makes_room(s: Seq<char>, needed: Seq<char>, k: int)
    requires
        k <= 0,
    ensures
        evict(s, needed, k) == s,
    decreases s.len(),
{
    if s.len() > 0 {
        nothing_makes_room(s.drop_first(), needed, k);
        assert(seq![s[0]] + s.drop_first() =~= s);
    } else {
        assert(evict(s, needed, k) =~= s);
    }
}

/// What is kept stays in order.
pub proof fn eviction_keeps_the_order(s: Seq<char>, needed: Seq<char>, k: int, a: int, b: int)
    requires
        0 <= a < b < evict(s, needed, k).len(),
    ensures
        exists|i: int, j: int|
            0 <= i < j < s.len() && #[trigger] s[i] == evict(s, needed, k)[a] && #[trigger] s[j]
                == evict(s, needed, k)[b],
    decreases s.len(),
{
    let rest = s.drop_first();
    let now = evict(s, needed, k);
    if k > 0 && !needed.contains(s[0]) {
        eviction_keeps_the_order(rest, needed, k - 1, a, b);
        let (i, j) = choose|i: int, j: int|
            0 <= i < j < rest.len() && #[trigger] rest[i] == now[a] && #[trigger] rest[j]
                == now[b];
        assert(s[i + 1] == now[a] && s[j + 1] == now[b]);
    } else {
        let kept = evict(rest, needed, k);
        assert(now[b] == kept[b - 1]);
        if a > 0 {
            assert(now[a] == kept[a - 1]);
            eviction_keeps_the_order(rest, needed, k, a - 1, b - 1);
            let (i, j) = choose|i: int, j: int|
                0 <= i < j < rest.len() && #[trigger] rest[i] == kept[a - 1] && #[trigger] rest[j]
                    == kept[b - 1];
            assert(s[i + 1] == now[a] && s[j + 1] == now[b]);
        } else {
            eviction_keeps_needed(rest, needed, k);
            assert(kept.contains(kept[b - 1]));
            let j = choose|j: int| 0 <= j < rest.len() && rest[j] == kept[b - 1];
            assert(s[0] == now[a] && s[j + 1] == now[b]);
        }
    }
}

/// The next keymap is the last one and then what is new, as long as that fits;
/// where it does not, what is kept of it is kept in that order.
pub proof fn next_keymap_adds_what_is_new(
    ordered: Seq<char>,
    wanted: Seq<char>,
    known: Seq<char>,
)
    ensures
        ordered.len() + without(wanted, known).len() <= 45 ==> next_chars(ordered, wanted, known)
            == ordered + without(wanted, known),
        forall|c: char|
            (#[trigger] ordered.contains(c) || wanted.contains(c) && !known.contains(c))
                && wanted.contains(c) ==> next_chars(ordered, wanted, known).contains(c),
        forall|c: char|
            #[trigger] next_chars(ordered, wanted, known).contains(c) ==> ordered.contains(c)
                || wanted.contains(c) && !known.contains(c),
{
    let fresh = without(wanted, known);
    let all = ordered + fresh;
    without_holds(wanted, known);
    eviction_keeps_needed(all, wanted, all.len() - SAFE_KEYS);
    let next = next_chars(ordered, wanted, known);
    assert forall|c: char|
        (#[trigger] ordered.contains(c) || wanted.contains(c) && !known.contains(c))
            && wanted.contains(c) implies next.contains(c) by {
        if ordered.contains(c) {
            let i = choose|i: int| 0 <= i < ordered.len() && ordered[i] == c;
            assert(all[i] == c);
        } else {
            assert(fresh.contains(c));
            let i = choose|i: int| 0 <= i < fresh.len() && fresh[i] == c;
            assert(all[ordered.len() + i] == c);
        }
        assert(all.contains(c));
    }
    assert forall|c: char| #[trigger] next.contains(c) implies ordered.contains(c)
        || wanted.contains(c) && !known.contains(c) by {
        assert(all.contains(c));
        let i = choose|i: int| 0 <= i < all.len() && all[i] == c;
        if i < ordered.len() {
            assert(ordered[i] == c);
        } else {
            assert(fresh[i - ordered.len()] == c);
            assert(fresh.contains(c));
        }
    }
}

proof fn without_holds(s: Seq<char>, known: Seq<char>)
    ensures
        forall|c: char|
            #[trigger] without(s, known).contains(c) <==> s.contains(c) && !known.contains(c),
    decreases s.len(),
{
    let now = without(s, known);
    if s.len() > 0 {
        let front = s.drop_last();
        without_holds(front, known);
        let rest = without(front, known);
        assert forall|c: char| #[trigger] now.contains(c) <==> s.contains(c) && !known.contains(
            c,
        ) by {
            if now.contains(c) {
                let i = choose|i: int| 0 <= i < now.len() && now[i] == c;
                if i < rest.len() {
                    assert(rest[i] == c);
                    assert(rest.contains(c));
                    let q = choose|q: int| 0 <= q < front.len() && front[q] == c;
                    assert(s[q] == c);
                } else {
                    assert(s[s.len() - 1] == c);
                }
            }
            if s.contains(c) && !known.contains(c) {
                let q = choose|q: int| 0 <= q < s.len() && s[q] == c;
                if q < front.len() {
                    assert(front[q] == c);
                    assert(rest.contains(c));
                    let i = choose|i: int| 0 <= i < rest.len() && rest[i] == c;
                    assert(now[i] == c);
                } else {
                    assert(now[rest.len() as int] == c);
                }
            }
        }
    }
}

/// What a text needs comes from the text, in the order of its first
/// occurrence, and each of it once.
pub proof fn wanted_comes_from_the_text(glyphs: Seq<Glyph>, text: Seq<char>, n: nat)
    requires
        n <= text.len(),
    ensures
        forall|c: char|
            #[trigger] wanted(glyphs, text, n).contains(c) <==> text.take(n as int).contains(c)
                && c != '\n' && c != '\t' && !(0x20 <= c as u32 <= 0x7e) && keysym_of(glyphs, c)
                is Some,
        wanted(glyphs, text, n).no_duplicates(),
    decreases n,
{
    if n > 0 {
        wanted_comes_from_the_text(glyphs, text, (n - 1) as nat);
        let before = wanted(glyphs, text, (n - 1) as nat);
        let now = wanted(glyphs, text, n);
        let head = text.take(n - 1);
        let all = text.take(n as int);
        let last = text[n - 1];
        assert(all =~= head.push(last));
        if 0x20 <= last as u32 <= 0x7e {
            printable_ascii_is_permanent(last, seq![]);
        } else if permanent_place(last) is Some {
            permanent_is_printable_ascii(last);
        }
        assert forall|c: char| #[trigger] now.contains(c) <==> all.contains(c) && c != '\n' && c
            != '\t' && !(0x20 <= c as u32 <= 0x7e) && keysym_of(glyphs, c) is Some by {
            if now.contains(c) {
                let i = choose|i: int| 0 <= i < now.len() && now[i] == c;
                if i < before.len() {
                    assert(before[i] == c);
                    assert(before.contains(c));
                    let q = choose|q: int| 0 <= q < head.len() && head[q] == c;
                    assert(all[q] == c);
                } else {
                    assert(all[n - 1] == c);
                }
            }
            if all.contains(c) {
                let q = choose|q: int| 0 <= q < all.len() && all[q] == c;
                if q < n - 1 {
                    assert(head[q] == c);
                    assert(head.contains(c));
                }
                if before.contains(c) {
                    let i = choose|i: int| 0 <= i < before.len() && before[i] == c;
                    assert(now[i] == c);
                } else if dynamic_char(glyphs, c) && c == last {
                    assert(now[before.len() as int] == c);
                }
            }
        }
    } else {
        assert(text.take(0) =~= Seq::<char>::empty());
    }
}

/// A text is cut only where it must be: a batch that others follow takes every
/// key, and the first character behind it needs one more.
pub proof fn batches_are_as_long_as_they_can_be(text: Seq<char>, start: int, k: int)
    requires
        0 <= start <= text.len(),
        0 <= k < batches_from(text, start).len() - 1,
    ensures
        ({
            let b = batches_from(text, start);
            &&& b[k].0 matches Some(chars) && chars.len() == 45 && !chars.contains(b[k + 1].1[0])
            &&& b[k + 1].1.len() > 0
            &&& takes_place(b[k + 1].1[0])
        }),
    decreases text.len() - start,
{
    batch_end_progress(text, start, start);
    let end = batch_end(text, start, start);
    let b = batches_from(text, start);
    if start < text.len() {
        let rest = batches_from(text, end);
        assert(b[0] == (Some(batch_chars(text, start, end)), text.subrange(start, end)));
        assert forall|q: int| 1 <= q < b.len() implies b[q] == #[trigger] rest[q - 1] by {}
        if k == 0 {
            assert(rest.len() > 0);
            assert(b[1] == rest[0]);
            assert(end < text.len());
            batch_end_progress(text, end, end);
            full_at_the_end(text, start, start);
            assert(rest[0].1 == text.subrange(end, batch_end(text, end, end)));
            assert(rest[0].1[0] == text[end]);
        } else {
            batches_are_as_long_as_they_can_be(text, end, k - 1);
            assert(b[k] == rest[k - 1]);
            assert(b[k + 1] == rest[k]);
        }
    }
}

proof fn full_at_the_end(text: Seq<char>, start: int, end: int)
    requires
        0 <= start <= end <= text.len(),
        batch_chars(text, start, end).len() <= SAFE_KEYS,
        batch_end(text, start, end) < text.len(),
    ensures
        ({
            let stop = batch_end(text, start, end);
            let taken = batch_chars(text, start, stop);
            takes_place(text[stop]) && !taken.contains(text[stop]) && taken.len() == SAFE_KEYS
        }),
    decreases text.len() - end,
{
    if end < text.len() {
        let c = text[end];
        let taken = batch_chars(text, start, end);
        if !(takes_place(c) && !taken.contains(c) && taken.len() >= SAFE_KEYS) {
            full_at_the_end(text, start, end + 1);
        }
    }
}

/// Letters and digits are named by themselves in the keymap.
pub proof fn letters_and_digits_name_themselves(i: int)
    requires
        0 <= i < ASCII_KEYS,
    ensures
        ({
            let row = ascii_row(i);
            &&& 'a' <= row.0.base <= 'z' || '0' <= row.0.base <= '9' ==> row.1 == seq![row.0.base]
            &&& 'A' <= row.0.shifted <= 'Z' ==> row.2 == seq![row.0.shifted]
        }),
{
    reveal_strlit("0");
    reveal_strlit("1");
    reveal_strlit("2");
    reveal_strlit("3");
    reveal_strlit("4");
    reveal_strlit("5");
    reveal_strlit("6");
    reveal_strlit("7");
    reveal_strlit("8");
    reveal_strlit("9");
    reveal_strlit("a");
    reveal_strlit("b");
    reveal_strlit("c");
    reveal_strlit("d");
    reveal_strlit("e");
    reveal_strlit("f");
    reveal_strlit("g");
    reveal_strlit("h");
    reveal_strlit("i");
    reveal_strlit("j");
    reveal_strlit("k");
    reveal_strlit("l");
    reveal_strlit("m");
    reveal_strlit("n");
    reveal_strlit("o");
    reveal_strlit("p");
    reveal_strlit("q");
    reveal_strlit("r");
    reveal_strlit("s");
    reveal_strlit("t");
    reveal_strlit("u");
    reveal_strlit("v");
    reveal_strlit("w");
    reveal_strlit("x");
    reveal_strlit("y");
    reveal_strlit("z");
    reveal_strlit("A");
    reveal_strlit("B");
    reveal_strlit("C");
    reveal_strlit("D");
    reveal_strlit("E");
    reveal_strlit("F");
    reveal_strlit("G");
    reveal_strlit("H");
    reveal_strlit("I");
    reveal_strlit("J");
    reveal_strlit("K");
    reveal_strlit("L");
    reveal_strlit("M");
    reveal_strlit("N");
    reveal_strlit("O");
    reveal_strlit("P");
    reveal_strlit("Q");
    reveal_strlit("R");
    reveal_strlit("S");
    reveal_strlit("T");
    reveal_strlit("U");
    reveal_strlit("V");
    reveal_strlit("W");
    reveal_strlit("X");
    reveal_strlit("Y");
    reveal_strlit("Z");
    assert(ascii_row(i).1.len() == 1 ==> ascii_row(i).1 =~= seq![ascii_row(i).1[0]]);
    assert(ascii_row(i).2.len() == 1 ==> ascii_row(i).2 =~= seq![ascii_row(i).2[0]]);
}

proof fn stands_in_the_whole(a: Seq<char>, b: Seq<char>, x: Seq<char>)
    ensures
        has_text(a, x) ==> has_text(a + b, x),
        has_text(b, x) ==> has_text(a + b, x),
{
    if has_text(a, x) {
        let i = choose|i: int|
            0 <= i <= a.len() - x.len() && #[trigger] a.subrange(i, i + x.len()) == x;
        assert((a + b).subrange(i, i + x.len()) =~= x);
    }
    if has_text(b, x) {
        let i = choose|i: int|
            0 <= i <= b.len() - x.len() && #[trigger] b.subrange(i, i + x.len()) == x;
        assert((a + b).subrange(a.len() + i, a.len() + i + x.len()) =~= x);
    }
}

proof fn stands_in_itself(x: Seq<char>)
    ensures
        has_text(x, x),
{
    assert(x.subrange(0, 0int + x.len()) =~= x);
}

proof fn symbol_line_stands(glyphs: Seq<Glyph>, dynamic: Seq<char>, i: int, n: nat)
    requires
        0 <= i < n,
    ensures
        has_text(ascii_symbols(glyphs, dynamic, n), ascii_symbol(glyphs, dynamic, i)),
    decreases n,
{
    let before = ascii_symbols(glyphs, dynamic, (n - 1) as nat);
    let line = ascii_symbol(glyphs, dynamic, n - 1);
    stands_in_the_whole(before, line, ascii_symbol(glyphs, dynamic, i));
    if i < n - 1 {
        symbol_line_stands(glyphs, dynamic, i, (n - 1) as nat);
    } else {
        stands_in_itself(line);
    }
}

proof fn definition_stands(i: int, n: nat)
    requires
        0 <= i < n,
    ensures
        has_text(ascii_definitions(n), definition(ascii_row(i).0.keycode as nat)),
    decreases n,
{
    let before = ascii_definitions((n - 1) as nat);
    let line = definition(ascii_row(n - 1).0.keycode as nat);
    stands_in_the_whole(before, line, definition(ascii_row(i).0.keycode as nat));
    if i < n - 1 {
        definition_stands(i, (n - 1) as nat);
    } else {
        stands_in_itself(line);
    }
}

/// The keymap defines every key that carries characters, and gives it its two
/// ASCII symbols and, as the third, the name of the character placed there.
pub proof fn keymap_holds_every_key(glyphs: Seq<Glyph>, dynamic: Seq<char>, i: int)
    requires
        0 <= i < ASCII_KEYS,
    ensures
        ({
            let number = decimal(ascii_row(i).0.keycode as nat);
            let third = if i < dynamic.len() && keysym_of(glyphs, dynamic[i]) is Some {
                keysym_of(glyphs, dynamic[i])->0
            } else {
                "NoSymbol"@
            };
            &&& has_text(
                keymap_text(glyphs, dynamic),
                "key <K"@ + number + "> { type=\"FOUR_LEVEL\", [ "@ + ascii_row(i).1 + ", "@
                    + ascii_row(i).2 + ", "@ + third + " ] };\n"@,
            )
            &&& has_text(keymap_text(glyphs, dynamic), "<K"@ + number + "> = "@ + number + ";\n"@)
        }),
{
    let line = ascii_symbol(glyphs, dynamic, i);
    let def = definition(ascii_row(i).0.keycode as nat);
    symbol_line_stands(glyphs, dynamic, i, ASCII_KEYS as nat);
    definition_stands(i, ASCII_KEYS as nat);
    let p0 =
        "xkb_keymap {\nxkb_keycodes \"whisrs\" {\nminimum = 8;\nmaximum = "@ + decimal(
        MAX_KEYCODE as nat,
    ) + ";\n"@ + base_definitions(BASE_KEYS as nat);
    let p1 = p0 + ascii_definitions(ASCII_KEYS as nat);
    let p2 = p1
        + "};\nxkb_types \"whisrs\" { include \"complete\" };\nxkb_compatibility \"whisrs\" { include \"complete\" };\nxkb_symbols \"whisrs\" {\n"@;
    let p3 = p2 + base_symbols(BASE_KEYS as nat);
    let p4 = p3 + modifier_map("Shift"@, SHIFT_XKB_KEYCODE as nat);
    let p5 = p4 + modifier_map("Mod5"@, ALTGR_XKB_KEYCODE as nat);
    let p6 = p5 + modifier_map("Control"@, CTRL_XKB_KEYCODE as nat);
    let p7 = p6 + ascii_symbols(glyphs, dynamic, ASCII_KEYS as nat);
    stands_in_the_whole(p0, ascii_definitions(ASCII_KEYS as nat), def);
    stands_in_the_whole(
        p1,
        "};\nxkb_types \"whisrs\" { include \"complete\" };\nxkb_compatibility \"whisrs\" { include \"complete\" };\nxkb_symbols \"whisrs\" {\n"@,
        def,
    );
    stands_in_the_whole(p2, base_symbols(BASE_KEYS as nat), def);
    stands_in_the_whole(p3, modifier_map("Shift"@, SHIFT_XKB_KEYCODE as nat), def);
    stands_in_the_whole(p4, modifier_map("Mod5"@, ALTGR_XKB_KEYCODE as nat), def);
    stands_in_the_whole(p5, modifier_map("Control"@, CTRL_XKB_KEYCODE as nat), def);
    stands_in_the_whole(p6, ascii_symbols(glyphs, dynamic, ASCII_KEYS as nat), def);
    stands_in_the_whole(p6, ascii_symbols(glyphs, dynamic, ASCII_KEYS as nat), line);
    stands_in_the_whole(p7, "};\n};\n"@, def);
    stands_in_the_whole(p7, "};\n};\n"@, line);
}

/// The name that XKB has for a punctuation character or the space.
pub open spec fn punctuation_name(c: char) -> Option<Seq<char>> {
    if c == '!' {
        Some("exclam"@)
    } else if c == '@' {
        Some("at"@)
    } else if c == '#' {
        Some("numbersign"@)
    } else if c == '$' {
        Some("dollar"@)
    } else if c == '%' {
        Some("percent"@)
    } else if c == '^' {
        Some("asciicircum"@)
    } else if c == '&' {
        Some("ampersand"@)
    } else if c == '*' {
        Some("asterisk"@)
    } else if c == '(' {
        Some("parenleft"@)
    } else if c == ')' {
        Some("parenright"@)
    } else if c == '-' {
        Some("minus"@)
    } else if c == '_' {
        Some("underscore"@)
    } else if c == '=' {
        Some("equal"@)
    } else if c == '+' {
        Some("plus"@)
    } else if c == '[' {
        Some("bracketleft"@)
    } else if c == '{' {
        Some("braceleft"@)
    } else if c == ']' {
        Some("bracketright"@)
    } else if c == '}' {
        Some("braceright"@)
    } else if c == ';' {
        Some("semicolon"@)
    } else if c == ':' {
        Some("colon"@)
    } else if c == '\'' {
        Some("apostrophe"@)
    } else if c == '"' {
        Some("quotedbl"@)
    } else if c == ',' {
        Some("comma"@)
    } else if c == '<' {
        Some("less"@)
    } else if c == '.' {
        Some("period"@)
    } else if c == '>' {
        Some("greater"@)
    } else if c == '/' {
        Some("slash"@)
    } else if c == '?' {
        Some("question"@)
    } else if c == '`' {
        Some("grave"@)
    } else if c == '~' {
        Some("asciitilde"@)
    } else if c == '\\' {
        Some("backslash"@)
    } else if c == '|' {
        Some("bar"@)
    } else if c == ' ' {
        Some("space"@)
    } else {
        None
    }
}

/// The keys of the keymap name their punctuation as XKB does.
pub proof fn punctuation_is_named(i: int)
    requires
        0 <= i < ASCII_KEYS,
    ensures
        ({
            let row = ascii_row(i);
            &&& !('a' <= row.0.base <= 'z' || '0' <= row.0.base <= '9') ==> punctuation_name(
                row.0.base,
            ) == Some(row.1)
            &&& !('A' <= row.0.shifted <= 'Z') ==> punctuation_name(row.0.shifted) == Some(row.2)
        }),
{
}

/// The name of a character is that of its first glyph, where that has one.
pub proof fn glyphs_name_their_characters(glyphs: Seq<Glyph>, c: char, i: int)
    requires
        0 <= i < glyphs.len(),
        glyphs[i].ch == c,
        forall|k: int| 0 <= k < i ==> (#[trigger] glyphs[k]).ch != c,
    ensures
        keysym_of(glyphs, c) == opt_text(glyphs[i].keysym),
    decreases glyphs.len(),
{
    if i > 0 {
        let rest = glyphs.drop_first();
        assert(glyphs[0].ch != c);
        assert(rest[i - 1] == glyphs[i]);
        assert forall|k: int| 0 <= k < i - 1 implies (#[trigger] rest[k]).ch != c by {
            assert(rest[k] == glyphs[k + 1]);
        }
        glyphs_name_their_characters(rest, c, i - 1);
    }
}

/// A character that can be placed is left out of a keymap only where the
/// keymap is full.
pub proof fn only_a_full_keymap_leaves_out(glyphs: Seq<Glyph>, chars: Seq<char>, n: nat, i: int)
    requires
        0 <= i < n <= chars.len(),
        !(0x20 <= chars[i] as u32 <= 0x7e),
        keysym_of(glyphs, chars[i]) matches Some(name) && name.len() > 0,
    ensures
        placed(glyphs, chars, n).contains(chars[i]) || placed(glyphs, chars, n).len() == 45,
    decreases n,
{
    placed_distinct(glyphs, chars, (n - 1) as nat);
    let before = placed(glyphs, chars, (n - 1) as nat);
    let now = placed(glyphs, chars, n);
    if permanent_place(chars[i]) is Some {
        permanent_is_printable_ascii(chars[i]);
    }
    if i < n - 1 {
        only_a_full_keymap_leaves_out(glyphs, chars, (n - 1) as nat, i);
        if before.contains(chars[i]) {
            let k = choose|k: int| 0 <= k < before.len() && before[k] == chars[i];
            assert(now[k] == chars[i]);
        }
    } else if placeable(glyphs, chars[i]) && !before.contains(chars[i]) && before.len() < 45 {
        assert(now.last() == chars[i]);
        assert(now[now.len() - 1] == chars[i]);
    }
}

/// The characters that a text wants placed stand in the order of their first
/// use.
pub proof fn first_use_decides_the_order(glyphs: Seq<Glyph>, text: Seq<char>, n: nat, a: int, b: int)
    requires
        n <= text.len(),
        0 <= a < b < wanted(glyphs, text, n).len(),
    ensures
        exists|i: int, j: int|
            0 <= i < j < n && #[trigger] text[i] == wanted(glyphs, text, n)[a] && #[trigger] text[j]
                == wanted(glyphs, text, n)[b] && !text.take(j).contains(text[j]),
    decreases n,
{
    let before = wanted(glyphs, text, (n - 1) as nat);
    let now = wanted(glyphs, text, n);
    if b < before.len() {
        first_use_decides_the_order(glyphs, text, (n - 1) as nat, a, b);
        let (i, j) = choose|i: int, j: int|
            0 <= i < j < n - 1 && #[trigger] text[i] == before[a] && #[trigger] text[j] == before[b]
                && !text.take(j).contains(text[j]);
        assert(text[i] == now[a] && text[j] == now[b]);
    } else {
        wanted_comes_from_the_text(glyphs, text, (n - 1) as nat);
        wanted_comes_from_the_text(glyphs, text, n);
        assert(before.contains(before[a]));
        let head = text.take(n - 1);
        assert(head.contains(before[a]));
        let i = choose|i: int| 0 <= i < head.len() && head[i] == before[a];
        assert(now.contains(now[b]));
        assert(text[i] == now[a] && text[n - 1] == now[b]);
        assert(!before.contains(text[n - 1]));
        assert(!head.contains(text[n - 1]));
    }
}

/// What is new keeps its order: leaving out what is known moves nothing.
pub proof fn leaving_out_keeps_the_order(a: Seq<char>, b: Seq<char>, known: Seq<char>)
    ensures
        without(a + b, known) == without(a, known) + without(b, known),
        a.len() == 1 ==> without(a, known) == (if known.contains(a[0]) {
            Seq::<char>::empty()
        } else {
            a
        }),
    decreases b.len(),
{
    if b.len() == 0 {
        assert(a + b =~= a);
        assert(without(a, known) + without(b, known) =~= without(a, known));
    } else {
        leaving_out_keeps_the_order(a, b.drop_last(), known);
        assert((a + b).drop_last() =~= a + b.drop_last());
        assert((a + b).last() == b.last());
        assert(without(a + b, known) =~= without(a, known) + without(b, known));
    }
    if a.len() == 1 {
        reveal_with_fuel(without, 2);
        assert(a.drop_last() =~= Seq::<char>::empty());
        assert(without(a, known) =~= (if known.contains(a[0]) {
            Seq::<char>::empty()
        } else {
            a
        }));
    }
}

proof fn base_line_stands(i: int, n: nat)
    requires
        0 <= i < n,
    ensures
        has_text(base_symbols(n), base_symbol(i)),
        has_text(base_definitions(n), definition(fixed_keycode(base_row(i).0) as nat)),
    decreases n,
{
    if i < n - 1 {
        base_line_stands(i, (n - 1) as nat);
    }
    stands_in_itself(base_symbol(n - 1));
    stands_in_itself(definition(fixed_keycode(base_row(n - 1).0) as nat));
    stands_in_the_whole(base_symbols((n - 1) as nat), base_symbol(n - 1), base_symbol(i));
    stands_in_the_whole(
        base_definitions((n - 1) as nat),
        definition(fixed_keycode(base_row(n - 1).0) as nat),
        definition(fixed_keycode(base_row(i).0) as nat),
    );
}

/// A key that stays the same in every keymap: its XKB keycode and its symbol.
pub open spec fn steady_key(i: int) -> (nat, Seq<char>) {
    seq![
        (22nat, "BackSpace"@),
        (37, "Control_L"@),
        (105, "Control_R"@),
        (50, "Shift_L"@),
        (64, "Alt_L"@),
        (108, "ISO_Level3_Shift"@),
        (36, "Return"@),
        (23, "Tab"@),
    ][i]
}

/// Every keymap defines the keys that stay the same, with their symbols, and
/// says which of them are modifiers.
pub proof fn keymap_holds_every_steady_key(glyphs: Seq<Glyph>, dynamic: Seq<char>, i: int)
    requires
        0 <= i < 8,
    ensures
        ({
            let (keycode, symbol) = steady_key(i);
            let text = keymap_text(glyphs, dynamic);
            &&& has_text(text, "key <K"@ + decimal(keycode) + "> { [ "@ + symbol + " ] };\n"@)
            &&& has_text(text, "<K"@ + decimal(keycode) + "> = "@ + decimal(keycode) + ";\n"@)
            &&& has_text(text, "modifier_map Shift { <K"@ + decimal(50) + "> };\n"@)
            &&& has_text(text, "modifier_map Mod5 { <K"@ + decimal(108) + "> };\n"@)
            &&& has_text(text, "modifier_map Control { <K"@ + decimal(37) + "> };\n"@)
        }),
{
    let (keycode, symbol) = steady_key(i);
    assert(fixed_keycode(base_row(i).0) as nat == keycode && base_row(i).1 == symbol);
    let line = base_symbol(i);
    let def = definition(keycode);
    let shift = modifier_map("Shift"@, SHIFT_XKB_KEYCODE as nat);
    let third = modifier_map("Mod5"@, ALTGR_XKB_KEYCODE as nat);
    let control = modifier_map("Control"@, CTRL_XKB_KEYCODE as nat);
    base_line_stands(i, BASE_KEYS as nat);
    stands_in_itself(shift);
    stands_in_itself(third);
    stands_in_itself(control);
    reveal_strlit("modifier_map ");
    reveal_strlit("Shift");
    reveal_strlit("Mod5");
    reveal_strlit("Control");
    reveal_strlit(" { <K");
    reveal_strlit("modifier_map Shift { <K");
    reveal_strlit("modifier_map Mod5 { <K");
    reveal_strlit("modifier_map Control { <K");
    assert("modifier_map "@ + "Shift"@ + " { <K"@ =~= "modifier_map Shift { <K"@);
    assert("modifier_map "@ + "Mod5"@ + " { <K"@ =~= "modifier_map Mod5 { <K"@);
    assert("modifier_map "@ + "Control"@ + " { <K"@ =~= "modifier_map Control { <K"@);
    let head = "xkb_keymap {\nxkb_keycodes \"whisrs\" {\nminimum = 8;\nmaximum = "@ + decimal(
        MAX_KEYCODE as nat,
    ) + ";\n"@;
    let a = base_definitions(BASE_KEYS as nat);
    let b = ascii_definitions(ASCII_KEYS as nat);
    let mid =
        "};\nxkb_types \"whisrs\" { include \"complete\" };\nxkb_compatibility \"whisrs\" { include \"complete\" };\nxkb_symbols \"whisrs\" {\n"@;
    let d = base_symbols(BASE_KEYS as nat);
    let e = ascii_symbols(glyphs, dynamic, ASCII_KEYS as nat);
    let tail = "};\n};\n"@;
    let p0 = head + a;
    let p1 = p0 + b;
    let p2 = p1 + mid;
    let p3 = p2 + d;
    let p4 = p3 + shift;
    let p5 = p4 + third;
    let p6 = p5 + control;
    let p7 = p6 + e;
    assert(keymap_text(glyphs, dynamic) == p7 + tail);
    stands_in_the_whole(head, a, def);
    stands_in_the_whole(p0, b, def);
    stands_in_the_whole(p1, mid, def);
    stands_in_the_whole(p2, d, def);
    stands_in_the_whole(p2, d, line);
    stands_in_the_whole(p3, shift, def);
    stands_in_the_whole(p3, shift, line);
    stands_in_the_whole(p3, shift, shift);
    stands_in_the_whole(p4, third, def);
    stands_in_the_whole(p4, third, line);
    stands_in_the_whole(p4, third, shift);
    stands_in_the_whole(p4, third, third);
    stands_in_the_whole(p5, control, def);
    stands_in_the_whole(p5, control, line);
    stands_in_the_whole(p5, control, shift);
    stands_in_the_whole(p5, control, third);
    stands_in_the_whole(p5, control, control);
    stands_in_the_whole(p6, e, def);
    stands_in_the_whole(p6, e, line);
    stands_in_the_whole(p6, e, shift);
    stands_in_the_whole(p6, e, third);
    stands_in_the_whole(p6, e, control);
    stands_in_the_whole(p7, tail, def);
    stands_in_the_whole(p7, tail, line);
    stands_in_the_whole(p7, tail, shift);
    stands_in_the_whole(p7, tail, third);
    stands_in_the_whole(p7, tail, control);
}

} // verus!
