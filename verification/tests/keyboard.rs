use evdev::Key;
use whisrs::keyboard::keymap::{
    base_keycode, build_keymap_string, dynamic_capacity, dynamic_keycode_pool, find_key,
    find_keysym, has_char, is_permanent_ascii, permanent_ascii_map, special_base_keycode,
    xkb_to_evdev_keycode, CharKey, FixedKey, Glyph, Keymap, Level, EVDEV_XKB_OFFSET,
};
use whisrs::keyboard::typing::{
    backspace_events, combo_events, distinct_dynamic_chars, next_time, split_batches, KeyEvent,
    VirtualKeyboard, ALTGR_MOD_MASK, CTRL_MOD_MASK, SHIFT_MOD_MASK,
};

/// A keysym for each character of a text, by its code point.
fn glyphs(text: &str) -> Vec<Glyph> {
    text.chars()
        .map(|ch| Glyph {
            ch,
            keysym: Some(format!("U{:04X}", ch as u32)),
        })
        .collect()
}

/// The character that a keysym name stands for.
fn keysym_char(name: &str) -> Option<char> {
    let mut letters = name.chars();
    if let (Some(c), None) = (letters.next(), letters.next()) {
        if c.is_ascii_alphanumeric() {
            return Some(c);
        }
    }
    if let Some(code) = name.strip_prefix('U') {
        if let Ok(cp) = u32::from_str_radix(code, 16) {
            return char::from_u32(cp);
        }
    }
    let named = [
        ("space", ' '),
        ("exclam", '!'),
        ("quotedbl", '"'),
        ("numbersign", '#'),
        ("dollar", '$'),
        ("percent", '%'),
        ("ampersand", '&'),
        ("apostrophe", '\''),
        ("parenleft", '('),
        ("parenright", ')'),
        ("asterisk", '*'),
        ("plus", '+'),
        ("comma", ','),
        ("minus", '-'),
        ("period", '.'),
        ("slash", '/'),
        ("colon", ':'),
        ("semicolon", ';'),
        ("less", '<'),
        ("equal", '='),
        ("greater", '>'),
        ("question", '?'),
        ("at", '@'),
        ("bracketleft", '['),
        ("backslash", '\\'),
        ("bracketright", ']'),
        ("asciicircum", '^'),
        ("underscore", '_'),
        ("grave", '`'),
        ("braceleft", '{'),
        ("bar", '|'),
        ("braceright", '}'),
        ("asciitilde", '~'),
    ];
    named.iter().find(|(n, _)| *n == name).map(|(_, c)| *c)
}

/// The symbols of a key in the text of a keymap.
fn symbols(text: &str, keycode: u32) -> Vec<String> {
    let head = format!("key <K{keycode}> {{");
    let line = text
        .lines()
        .find(|l| l.starts_with(&head))
        .unwrap_or_else(|| panic!("key {keycode} is not in the keymap:\n{text}"));
    let open = line.find("[ ").expect("symbols") + 2;
    let close = line.rfind(" ]").expect("symbols");
    line[open..close].split(", ").map(str::to_string).collect()
}

/// What a key gives at its level.
fn resolve(keymap: &Keymap, key: CharKey) -> Option<char> {
    assert!(
        keymap
            .text
            .contains(&format!("<K{0}> = {0};", key.keycode)),
        "keycode {} is not declared",
        key.keycode
    );
    let level = match key.level {
        Level::Base => 0,
        Level::Shift => 1,
        Level::AltGr => 2,
    };
    symbols(&keymap.text, key.keycode)
        .get(level)
        .and_then(|name| keysym_char(name))
}

fn build(chars: &[char]) -> Keymap {
    let text: String = chars.iter().collect();
    build_keymap_string(&glyphs(&text), chars)
}

fn dynamic(text: &str) -> Vec<char> {
    distinct_dynamic_chars(&glyphs(text), text)
}

fn key_of(keymap: &Keymap, ch: char) -> CharKey {
    find_key(&keymap.dynamic, ch).unwrap_or_else(|| panic!("char {ch:?} has no key"))
}

fn assert_roundtrip(input: &str) {
    let keymap = build(&dynamic(input));
    for ch in input.chars() {
        if special_base_keycode(ch).is_some() {
            continue;
        }
        let key = key_of(&keymap, ch);
        assert_eq!(resolve(&keymap, key), Some(ch), "{ch:?} at {key:?}");
    }
}

#[test]
fn roundtrip_mixed_scripts() {
    // Latin (mixed case) + Arabic + Greek + Cyrillic + punctuation/digits.
    let input = "Ammeter اميتر ω д 1+2=3! UPPER lower";
    assert_roundtrip(input);
    // The non-ASCII dynamic count is comfortably within one keymap.
    let dynamic = dynamic(input);
    assert!(dynamic.len() <= dynamic_capacity());
    assert!(
        dynamic.iter().all(|c| (*c as u32) >= 0x80),
        "distinct_dynamic_chars must contain only non-ASCII, got {dynamic:?}"
    );
}

#[test]
fn all_printable_ascii_is_permanent_and_resolvable() {
    let keymap = build(&[]);
    let mut checked = 0usize;
    for cp in 0x20u32..=0x7e {
        let ch = char::from_u32(cp).unwrap();
        assert!(
            is_permanent_ascii(ch),
            "printable ASCII {ch:?} (U+{cp:04X}) must be permanent"
        );
        let key = key_of(&keymap, ch);
        assert_eq!(resolve(&keymap, key), Some(ch), "{ch:?} at {key:?}");
        checked += 1;
    }
    assert_eq!(checked, 95, "expected all 95 printable ASCII chars");
}

#[test]
fn streaming_accumulation_keeps_all_chars_resolvable() {
    // EN + AR + RU interleaved, as a streaming transcription might deliver.
    let deltas = [
        "the quick ",
        "brown اهلا ",
        "fox مرحبا ",
        "привет jumps ",
        "over мир ",
        "the lazy ",
        "صباح dog ",
        "доброе утро!",
    ];

    let mut ordered: Vec<char> = Vec::new();
    let mut typed_so_far = String::new();

    for delta in deltas {
        for ch in dynamic(delta) {
            if !ordered.contains(&ch) {
                ordered.push(ch);
            }
        }
        typed_so_far.push_str(delta);
        assert!(
            ordered.len() <= dynamic_capacity(),
            "test fixture exceeded capacity ({} > {})",
            ordered.len(),
            dynamic_capacity()
        );

        let keymap = build(&ordered);
        for ch in typed_so_far.chars() {
            if special_base_keycode(ch).is_some() {
                continue;
            }
            let key = key_of(&keymap, ch);
            assert_eq!(
                resolve(&keymap, key),
                Some(ch),
                "after delta {delta:?}: char {ch:?} no longer resolves at {key:?}"
            );
        }
    }
}

#[test]
fn accumulation_is_stable_across_reuploads() {
    let first = build(&dynamic("اهلا"));
    let m1 = key_of(&first, 'ا');

    // Add more non-ASCII glyphs; the original 'ا' must keep its CharKey.
    let second = build(&dynamic("اهلا مرحبا привет"));
    let m2 = key_of(&second, 'ا');
    assert_eq!(
        m1, m2,
        "glyph 'ا' relocated across re-upload: {m1:?} -> {m2:?}"
    );

    // ASCII keys are identical in both (permanent).
    assert_eq!(
        find_key(&first.dynamic, 'a'),
        find_key(&second.dynamic, 'a')
    );
    assert_eq!(
        find_key(&first.dynamic, ' '),
        find_key(&second.dynamic, ' ')
    );
}

/// More distinct characters beyond ASCII than one keymap places.
fn many_characters() -> String {
    let needed = dynamic_capacity() + 20;
    (0x0410u32..)
        .filter_map(char::from_u32)
        .filter(|c| !c.is_control())
        .take(needed)
        .collect()
}

#[test]
fn roundtrip_batches_over_capacity() {
    let input = many_characters();
    let dynamic = dynamic(&input);
    assert!(dynamic.len() > dynamic_capacity());

    let mut idx = 0;
    let mut total = 0usize;
    let mut batches = 0usize;
    while idx < dynamic.len() {
        let end = (idx + dynamic_capacity()).min(dynamic.len());
        let batch = &dynamic[idx..end];
        let keymap = build(batch);
        for &ch in batch {
            assert_eq!(resolve(&keymap, key_of(&keymap, ch)), Some(ch));
            total += 1;
        }
        batches += 1;
        idx = end;
    }
    assert_eq!(total, dynamic.len());
    assert!(batches >= 2, "expected >=2 batches, got {batches}");
}

#[test]
fn special_base_keycode_maps_newline_and_tab() {
    assert_eq!(
        special_base_keycode('\n'),
        Some(u32::from(Key::KEY_ENTER.code()) + 8)
    );
    assert_eq!(
        special_base_keycode('\t'),
        Some(u32::from(Key::KEY_TAB.code()) + 8)
    );
    assert_eq!(special_base_keycode('a'), None);
    assert_eq!(special_base_keycode(' '), None);
    assert_eq!(special_base_keycode('م'), None);
}

#[test]
fn newline_tab_are_not_dynamic_but_compile_at_base_keycodes() {
    // \n / \t are filtered before keymap build (ride Return/Tab base keys).
    let dynamic = dynamic("\n\t");
    assert!(dynamic.is_empty(), "got {dynamic:?}");
    let keymap = build(&dynamic);

    let enter_kc = u32::from(Key::KEY_ENTER.code()) + 8;
    assert_eq!(symbols(&keymap.text, enter_kc), ["Return"]);

    let tab_kc = u32::from(Key::KEY_TAB.code()) + 8;
    assert_eq!(symbols(&keymap.text, tab_kc), ["Tab"]);
}

#[test]
fn distinct_dynamic_chars_excludes_ascii_and_whitespace_base_keys() {
    // ASCII (incl. space) and \n/\t are NOT dynamic; only non-ASCII is.
    let got = dynamic("a\tb\n ab مرحبا مرحبا");
    // Only the distinct Arabic letters, in first-seen order.
    assert_eq!(got, vec!['م', 'ر', 'ح', 'ب', 'ا']);
}

#[test]
fn accumulation_detects_no_new_chars_on_reused_or_ascii_glyphs() {
    let keymap = build(&dynamic("مرحبا"));
    let fresh = |text: &str| -> Vec<char> {
        dynamic(text)
            .into_iter()
            .filter(|ch| find_key(&keymap.dynamic, *ch).is_none())
            .collect()
    };

    for reuse in [" احبرم", "hello world مرحبا", "ABC 123 !@# مرم"] {
        let new_chars = fresh(reuse);
        assert!(
            new_chars.is_empty(),
            "reuse {reuse:?} should introduce no new dynamic glyph, got {new_chars:?}"
        );
    }

    // A genuinely new non-ASCII glyph IS detected.
    assert_eq!(
        fresh("مرحبا привет"),
        vec!['п', 'р', 'и', 'в', 'е', 'т']
    );
}

/// The evdev keycodes that must NEVER be emitted as a glyph-carrying key,
/// because in a standard keymap they resolve to special keysyms compositors
/// commonly bind (F13–F24, media, `Print`, system keys).
fn is_dangerous_evdev_keycode(evdev: u32) -> bool {
    if (183..=247).contains(&evdev) {
        return true;
    }
    matches!(
        evdev,
        99 | 113 | 114 | 115 | 139 | 148 | 149 | 163 | 164 | 165
    )
}

#[test]
fn no_emitted_keycode_is_a_special_key() {
    let text = "Hello, мир! اهلا ω 1234567890 -=[];'/.,";
    let keymap = build(&dynamic(text));
    assert!(!keymap.dynamic.is_empty());
    let pool = dynamic_keycode_pool();
    let permanent: Vec<u32> = permanent_ascii_map()
        .iter()
        .map(|(_, key)| key.keycode)
        .collect();

    let all = keymap
        .dynamic
        .iter()
        .copied()
        .chain(permanent_ascii_map().into_iter().map(|(c, _)| c));
    for ch in all {
        let key = key_of(&keymap, ch);
        let evdev = xkb_to_evdev_keycode(key.keycode);
        assert!(
            !is_dangerous_evdev_keycode(evdev),
            "char {ch:?}: emitted evdev keycode {evdev} (XKB {}) is a special key",
            key.keycode
        );
        // Dynamic (AltGr-level) glyphs must come from the safe block.
        if key.level == Level::AltGr {
            assert!(
                pool.contains(&key.keycode),
                "char {ch:?}: dynamic XKB keycode {} outside safe alphanumeric block",
                key.keycode
            );
        }
        assert!(
            permanent.contains(&key.keycode),
            "char {ch:?}: keycode {} is not a permanent-ASCII keycode",
            key.keycode
        );
    }

    // Every base/modifier key that is emitted is also safe.
    for key in [
        Key::KEY_BACKSPACE,
        Key::KEY_LEFTCTRL,
        Key::KEY_RIGHTCTRL,
        Key::KEY_LEFTSHIFT,
        Key::KEY_LEFTALT,
        Key::KEY_RIGHTALT,
        Key::KEY_ENTER,
        Key::KEY_TAB,
    ] {
        let evdev = u32::from(key.code());
        assert!(
            !is_dangerous_evdev_keycode(evdev),
            "base key {key:?}: evdev keycode {evdev} is a special key"
        );
    }

    // Discrimination sanity.
    assert!(is_dangerous_evdev_keycode(200u32 - EVDEV_XKB_OFFSET)); // 192 / F22
    assert!(is_dangerous_evdev_keycode(210)); // KEY_PRINT
}

#[test]
fn vk_key_arg_plus_8_resolves_to_intended_glyph() {
    let text = "ab AB م ω д 1+2=3 !@#";
    let keymap = build(&dynamic(text));
    assert!(!keymap.dynamic.is_empty());

    for ch in text.chars() {
        let key = key_of(&keymap, ch);
        let evdev = xkb_to_evdev_keycode(key.keycode);
        assert_eq!(
            evdev + EVDEV_XKB_OFFSET,
            key.keycode,
            "char {ch:?}: vk.key arg {evdev} + {EVDEV_XKB_OFFSET} must equal XKB {}",
            key.keycode
        );
        assert_eq!(resolve(&keymap, key), Some(ch), "{ch:?} at {key:?}");
    }

    // Base keys (BackSpace/Return/Tab/Ctrl + the modifiers) still survive.
    for (key, expected_name) in [
        (Key::KEY_BACKSPACE, "BackSpace"),
        (Key::KEY_ENTER, "Return"),
        (Key::KEY_TAB, "Tab"),
        (Key::KEY_LEFTCTRL, "Control_L"),
        (Key::KEY_RIGHTALT, "ISO_Level3_Shift"),
    ] {
        let xkb_keycode = u32::from(key.code()) + EVDEV_XKB_OFFSET;
        assert_eq!(symbols(&keymap.text, xkb_keycode), [expected_name]);
    }
}

#[test]
fn keysym_name_roundtrip_tricky_chars() {
    // Dynamic (non-ASCII) tricky glyphs round-trip through their AltGr slot.
    for &ch in &['é', 'م', '😀', 'ω', 'д'] {
        let keymap = build(&[ch]);
        let key = key_of(&keymap, ch);
        assert_eq!(
            key.level,
            Level::AltGr,
            "non-ASCII {ch:?} should be AltGr-level"
        );
        assert_eq!(resolve(&keymap, key), Some(ch));
    }
}

#[test]
fn shifted_ascii_uses_shift_level() {
    let map = permanent_ascii_map();
    let key = |c: char| map.iter().find(|(ch, _)| *ch == c).expect("permanent").1;
    // Uppercase 'A' is Shift of 'a' on the same keycode.
    let lower = key('a');
    let upper = key('A');
    assert_eq!(lower.keycode, upper.keycode, "'a'/'A' share a keycode");
    assert_eq!(lower.level, Level::Base);
    assert_eq!(upper.level, Level::Shift);

    // Shifted punctuation: '!' is Shift of '1'.
    let one = key('1');
    let bang = key('!');
    assert_eq!(one.keycode, bang.keycode);
    assert_eq!(bang.level, Level::Shift);

    // Verify against a keymap with no dynamics.
    let keymap = build(&[]);
    for c in ['A', 'a', '!', '1', ' '] {
        assert_eq!(resolve(&keymap, key(c)), Some(c));
    }
}

#[test]
fn space_is_permanent_base_level() {
    assert!(is_permanent_ascii(' '));
    let key = permanent_ascii_map()
        .into_iter()
        .find(|(c, _)| *c == ' ')
        .expect("space is permanent")
        .1;
    assert_eq!(
        key.level,
        Level::Base,
        "space must be base-level (no modifier)"
    );
    // And it resolves from a zero-dynamic keymap.
    let keymap = build(&[]);
    assert_eq!(resolve(&keymap, key), Some(' '));
}

#[test]
fn modifier_masks_select_levels() {
    // Shift, Control and Mod5 are the first, third and eighth real modifier.
    assert_eq!(SHIFT_MOD_MASK.trailing_zeros(), 0);
    assert_eq!(CTRL_MOD_MASK.trailing_zeros(), 2);
    assert_eq!(ALTGR_MOD_MASK.trailing_zeros(), 7);

    let keymap = build(&['م']);
    assert!(keymap.text.contains("modifier_map Shift { <K50> };"));
    assert!(keymap.text.contains("modifier_map Mod5 { <K108> };"));
    assert!(keymap.text.contains("modifier_map Control { <K37> };"));

    let mut keyboard = VirtualKeyboard::new();
    keyboard.uploaded(&keymap);
    let masks: Vec<KeyEvent> = keyboard
        .events_for(&['a', 'A', 'م'])
        .into_iter()
        .filter(|e| matches!(e, KeyEvent::Modifiers(m) if *m != 0))
        .collect();
    assert_eq!(
        masks,
        [
            KeyEvent::Modifiers(SHIFT_MOD_MASK),
            KeyEvent::Modifiers(ALTGR_MOD_MASK)
        ]
    );
    let meem = key_of(&keymap, 'م');
    assert_eq!(meem.level, Level::AltGr);
    assert_eq!(resolve(&keymap, meem), Some('م'));
}

#[test]
fn the_fixed_keys_have_their_evdev_codes() {
    for (fixed, key) in [
        (FixedKey::Backspace, Key::KEY_BACKSPACE),
        (FixedKey::LeftCtrl, Key::KEY_LEFTCTRL),
        (FixedKey::RightCtrl, Key::KEY_RIGHTCTRL),
        (FixedKey::LeftShift, Key::KEY_LEFTSHIFT),
        (FixedKey::RightShift, Key::KEY_RIGHTSHIFT),
        (FixedKey::LeftAlt, Key::KEY_LEFTALT),
        (FixedKey::RightAlt, Key::KEY_RIGHTALT),
        (FixedKey::Enter, Key::KEY_ENTER),
        (FixedKey::Tab, Key::KEY_TAB),
    ] {
        assert_eq!(base_keycode(fixed), u32::from(key.code()) + 8);
    }
}

#[test]
fn keycodes_below_the_offset_stay_at_zero() {
    assert_eq!(xkb_to_evdev_keycode(38), 30);
    assert_eq!(xkb_to_evdev_keycode(8), 0);
    assert_eq!(xkb_to_evdev_keycode(3), 0);
}

#[test]
fn characters_without_a_keysym_are_left_out() {
    let table = vec![
        Glyph {
            ch: 'é',
            keysym: Some("eacute".to_string()),
        },
        Glyph {
            ch: '\u{fffe}',
            keysym: None,
        },
    ];
    assert_eq!(find_keysym(&table, 'é').map(String::as_str), Some("eacute"));
    assert_eq!(find_keysym(&table, '\u{fffe}'), None);
    assert_eq!(find_keysym(&table, 'ü'), None);
    let keymap = build_keymap_string(&table, &['\u{fffe}', 'é', 'é', 'a']);
    assert_eq!(keymap.dynamic, ['é']);
    assert!(has_char(&keymap.dynamic, 'é') && !has_char(&keymap.dynamic, 'a'));
    assert_eq!(
        symbols(&keymap.text, dynamic_keycode_pool()[0])[2],
        "eacute"
    );
}

#[test]
fn ascii_is_typed_without_a_new_keymap() {
    let mut keyboard = VirtualKeyboard::new();
    // The first text uploads the keymap, the next ones need no other.
    let plan = keyboard.plan_text(&[], "Hi");
    assert!(!plan.over_capacity);
    assert_eq!(plan.batches.len(), 1);
    assert_eq!(plan.batches[0].upload.as_deref(), Some(&[][..]));
    keyboard.uploaded(&build(&[]));
    keyboard.finish_text(&plan);
    let plan = keyboard.plan_text(&[], "there!");
    assert!(plan.batches.iter().all(|b| b.upload.is_none()));
    assert_eq!(keyboard.upload_for_base_keys(), None);

    let h = xkb_to_evdev_keycode(key_of(&build(&[]), 'h').keycode);
    assert_eq!(
        keyboard.events_for(&['H']),
        [
            KeyEvent::Modifiers(SHIFT_MOD_MASK),
            KeyEvent::Press(h),
            KeyEvent::Release(h),
            KeyEvent::Modifiers(0)
        ]
    );
    assert_eq!(
        keyboard.events_for(&['h', '\n']),
        [
            KeyEvent::Press(h),
            KeyEvent::Release(h),
            KeyEvent::Press(28),
            KeyEvent::Release(28)
        ]
    );
}

#[test]
fn a_text_over_capacity_is_typed_in_batches() {
    let text = many_characters();
    let table = glyphs(&text);
    let mut keyboard = VirtualKeyboard::new();
    let plan = keyboard.plan_text(&table, &text);
    assert!(plan.over_capacity);
    assert_eq!(plan.batches.len(), 2);
    let mut typed = String::new();
    for batch in &plan.batches {
        let chars = batch.upload.as_ref().expect("every batch has its keymap");
        let keymap = build_keymap_string(&table, chars);
        keyboard.uploaded(&keymap);
        for &c in &batch.chars {
            assert_eq!(resolve(&keymap, key_of(&keymap, c)), Some(c));
            typed.push(c);
        }
        assert_eq!(keyboard.events_for(&batch.chars).len(), 4 * batch.chars.len());
    }
    keyboard.finish_text(&plan);
    assert_eq!(typed, text);

    // A character of an earlier batch is placed anew when it comes again.
    let again: String = text.chars().take(1).collect();
    let plan = keyboard.plan_text(&table, &again);
    assert_eq!(
        plan.batches[0].upload.as_deref(),
        Some(&again.chars().collect::<Vec<char>>()[..])
    );
}

#[test]
fn batches_are_cut_before_the_character_that_does_not_fit() {
    let many: Vec<char> = many_characters().chars().collect();
    let mut text: Vec<char> = vec!['a'];
    text.extend(&many);
    let batches = split_batches(&text);
    assert_eq!(batches.len(), 2);
    assert_eq!(batches[0].chars.len(), 1 + dynamic_capacity());
    assert_eq!(batches[1].chars.len(), 20);
    assert!(split_batches(&[]).is_empty());
}

#[test]
fn combos_declare_their_modifiers() {
    let c = Key::KEY_C.code();
    let ctrl = Key::KEY_LEFTCTRL.code();
    let shift = Key::KEY_LEFTSHIFT.code();
    let events = combo_events(&[ctrl, shift, c]);
    assert!(events.contains(&KeyEvent::Modifiers(CTRL_MOD_MASK + SHIFT_MOD_MASK)));
    assert!(events.contains(&KeyEvent::Press(u32::from(c))));
    assert_eq!(events.last(), Some(&KeyEvent::Modifiers(0)));
}

#[test]
fn backspace_is_one_tap() {
    assert_eq!(
        backspace_events(),
        [KeyEvent::Press(14), KeyEvent::Release(14)]
    );
}

#[test]
fn event_times_do_not_overflow() {
    assert_eq!(next_time(5, 2), 7);
    assert_eq!(next_time(u32::MAX, 2), u32::MAX);
    assert_eq!(next_time(1, 0x1_0000_0003), 4);
}

#[test]
fn no_two_characters_share_a_place() {
    let dynamic: Vec<char> = ('а'..='я').take(45).collect();
    let mut places = Vec::new();
    for c in (' '..='~').chain(dynamic.iter().copied()) {
        let key = find_key(&dynamic, c).unwrap();
        assert!(!places.contains(&key), "{c:?}");
        places.push(key);
    }
    assert_eq!(places.len(), 95 + dynamic.len());
}
