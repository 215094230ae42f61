//! Typing text on the virtual keyboard: when a keymap has to be uploaded, and
//! which key events produce the text.
//!
//! The keyboard is a state and decisions on it. Whoever holds the connection
//! asks for a plan, uploads the keymaps that the plan names, reports each
//! upload that succeeded, and sends the events.

use crate::keyboard::keymap::{
    base_keycode, dynamic_capacity, evdev_code, find_key, find_keysym, fixed_code, fixed_keycode,
    has_char, is_permanent_ascii, keysym_of, permanent_place, place, placed, special_base_keycode,
    special_place, xkb_to_evdev_keycode, CharKey, FixedKey, Glyph, Keymap, Level, EVDEV_XKB_OFFSET,
    SAFE_KEYS,
};
use crate::text::{range_of, to_chars};
use vstd::prelude::*;

verus! {

/// Modifier mask that selects the Shift level.
pub const SHIFT_MOD_MASK: u32 = 1;

/// Modifier mask that declares Control depressed.
pub const CTRL_MOD_MASK: u32 = 4;

/// Modifier mask that selects the AltGr level.
pub const ALTGR_MOD_MASK: u32 = 128;

/// One request to the compositor.
#[derive(Clone, Copy, Debug, PartialEq, Eq, Structural)]
pub enum KeyEvent {
    /// Declare the depressed modifiers.
    Modifiers(u32),
    /// Press the key with this evdev keycode.
    Press(u32),
    /// Release the key with this evdev keycode.
    Release(u32),
}

/// Whether `c` needs a place beyond the permanent ones: it is no ASCII, not
/// typed through Return or Tab, and has a keysym.
pub open spec fn dynamic_char(glyphs: Seq<Glyph>, c: char) -> bool {
    special_place(c) is None && permanent_place(c) is None && keysym_of(glyphs, c) is Some
}

/// The distinct characters among the first `n` of `text` that need a place, in
/// the order of their first occurrence.
pub open spec fn wanted(glyphs: Seq<Glyph>, text: Seq<char>, n: nat) -> Seq<char>
    decreases n,
{
    if n == 0 {
        seq![]
    } else {
        let before = wanted(glyphs, text, (n - 1) as nat);
        let c = text[n - 1];
        if dynamic_char(glyphs, c) && !before.contains(c) {
            before.push(c)
        } else {
            before
        }
    }
}

fn dynamic_chars(glyphs: &[Glyph], text: &[char]) -> (r: Vec<char>)
    ensures
        r@ == wanted(glyphs@, text@, text@.len()),
{
    let mut r: Vec<char> = Vec::new();
    let mut i: usize = 0;
    while i < text.len()
        invariant
            i <= text@.len(),
            r@ == wanted(glyphs@, text@, i as nat),
        decreases text@.len() - i,
    {
        let c = text[i];
        if special_base_keycode(c).is_none() && !is_permanent_ascii(c) && !has_char(&r, c)
            && find_keysym(glyphs, c).is_some() {
            r.push(c);
        }
        i += 1;
    }
    r
}

/// Collect the distinct characters of `text` that need a place beyond the
/// permanent ones, in the order of their first occurrence. Characters without
/// a keysym are left out.
pub fn distinct_dynamic_chars(glyphs: &[Glyph], text: &str) -> (r: Vec<char>)
    ensures
        r@ == wanted(glyphs@, text@, text@.len()),
{
    dynamic_chars(glyphs, &to_chars(text))
}

/// The members of `s` that are not in `known`, in order.
pub open spec fn without(s: Seq<char>, known: Seq<char>) -> Seq<char>
    decreases s.len(),
{
    if s.len() == 0 {
        seq![]
    } else {
        let rest = without(s.drop_last(), known);
        if known.contains(s.last()) {
            rest
        } else {
            rest.push(s.last())
        }
    }
}

/// `s` without the first `k` members that are not in `needed`.
pub open spec fn evict(s: Seq<char>, needed: Seq<char>, k: int) -> Seq<char>
    decreases s.len(),
{
    if s.len() == 0 {
        seq![]
    } else if k > 0 && !needed.contains(s[0]) {
        evict(s.drop_first(), needed, k - 1)
    } else {
        seq![s[0]] + evict(s.drop_first(), needed, k)
    }
}

/// The characters that the next keymap places: those of the last one, then the
/// new ones. Where they are too many, the oldest that the text at hand does
/// not need make room.
pub open spec fn next_chars(ordered: Seq<char>, wanted: Seq<char>, known: Seq<char>) -> Seq<char> {
    let all = ordered + without(wanted, known);
    if all.len() > SAFE_KEYS {
        evict(all, wanted, all.len() - SAFE_KEYS)
    } else {
        all
    }
}

fn chars_without(s: &[char], known: &[char]) -> (r: Vec<char>)
    ensures
        r@ == without(s@, known@),
{
    let mut r: Vec<char> = Vec::new();
    let mut i: usize = 0;
    assert(s@.take(0) =~= Seq::<char>::empty());
    while i < s.len()
        invariant
            i <= s@.len(),
            r@ == without(s@.take(i as int), known@),
        decreases s@.len() - i,
    {
        let ghost t = s@.take(i + 1);
        assert(t.drop_last() =~= s@.take(i as int));
        assert(t.last() == s@[i as int]);
        if !has_char(known, s[i]) {
            r.push(s[i]);
        }
        i += 1;
    }
    assert(s@.take(s@.len() as int) =~= s@);
    r
}

fn evict_oldest(s: &[char], needed: &[char], k: usize) -> (r: Vec<char>)
    ensures
        r@ == evict(s@, needed@, k as int),
{
    let mut r: Vec<char> = Vec::new();
    let mut left: usize = k;
    let mut i: usize = 0;
    assert(s@.skip(0) =~= s@);
    assert(r@ + evict(s@, needed@, k as int) =~= evict(s@, needed@, k as int));
    while i < s.len()
        invariant
            i <= s@.len(),
            r@ + evict(s@.skip(i as int), needed@, left as int) == evict(s@, needed@, k as int),
        decreases s@.len() - i,
    {
        let ghost rest = s@.skip(i as int);
        let ghost before = r@;
        assert(rest[0] == s@[i as int]);
        assert(rest.drop_first() =~= s@.skip(i + 1));
        if left > 0 && !has_char(needed, s[i]) {
            left -= 1;
        } else {
            r.push(s[i]);
            assert(r@ + evict(s@.skip(i + 1), needed@, left as int) =~= before + (seq![rest[0]]
                + evict(s@.skip(i + 1), needed@, left as int)));
        }
        i += 1;
    }
    assert(r@ + evict(s@.skip(i as int), needed@, left as int) =~= r@);
    r
}

/// Whether `c` takes one of the places of a batch.
pub open spec fn takes_place(c: char) -> bool {
    special_place(c) is None && permanent_place(c) is None
}

/// The distinct characters of `text` from `start` up to `end` that take a
/// place, in the order of their first occurrence.
pub open spec fn batch_chars(text: Seq<char>, start: int, end: int) -> Seq<char>
    decreases end - start,
{
    if end <= start {
        seq![]
    } else {
        let before = batch_chars(text, start, end - 1);
        if takes_place(text[end - 1]) && !before.contains(text[end - 1]) {
            before.push(text[end - 1])
        } else {
            before
        }
    }
}

/// Where the batch that starts at `start` and reaches `end` ends: before the
/// first character that would need one place too many.
pub open spec fn batch_end(text: Seq<char>, start: int, end: int) -> int
    decreases text.len() - end,
{
    if end >= text.len() {
        end
    } else {
        let c = text[end];
        let taken = batch_chars(text, start, end);
        if takes_place(c) && !taken.contains(c) && taken.len() >= SAFE_KEYS {
            end
        } else {
            batch_end(text, start, end + 1)
        }
    }
}

/// A stretch of text with the keymap that has to be uploaded before it is
/// typed, if one has to be.
#[derive(Debug, Clone)]
pub struct Batch {
    /// The characters to place in the keymap to upload.
    pub upload: Option<Vec<char>>,
    /// The text to type.
    pub chars: Vec<char>,
}

/// What a batch holds.
pub open spec fn batch_view(b: Batch) -> (Option<Seq<char>>, Seq<char>) {
    (
        match b.upload {
            Some(v) => Some(v@),
            None => None,
        },
        b.chars@,
    )
}

/// What each batch holds, in order.
pub open spec fn batch_views(v: Seq<Batch>) -> Seq<(Option<Seq<char>>, Seq<char>)> {
    Seq::new(v.len(), |i: int| batch_view(v[i]))
}

/// The batches of `text` from `start` on, each as long as its keymap allows.
pub open spec fn batches_from(text: Seq<char>, start: int) -> Seq<(Option<Seq<char>>, Seq<char>)>
    decreases text.len() - start,
{
    if start >= text.len() {
        seq![]
    } else {
        let end = batch_end(text, start, start);
        if start < end <= text.len() {
            seq![(Some(batch_chars(text, start, end)), text.subrange(start, end))] + batches_from(
                text,
                end,
            )
        } else {
            seq![]
        }
    }
}

/// A batch ends within the text, is never empty, and takes no more places than
/// there are keys.
pub proof fn batch_end_progress(text: Seq<char>, start: int, end: int)
    requires
        0 <= start <= end <= text.len(),
    ensures
        end <= batch_end(text, start, end) <= text.len(),
        start == end && start < text.len() ==> batch_end(text, start, end) > start,
        batch_chars(text, start, end).len() <= SAFE_KEYS ==> batch_chars(
            text,
            start,
            batch_end(text, start, end),
        ).len() <= SAFE_KEYS,
    decreases text.len() - end,
{
    if end < text.len() {
        let c = text[end];
        let taken = batch_chars(text, start, end);
        if !(takes_place(c) && !taken.contains(c) && taken.len() >= SAFE_KEYS) {
            batch_end_progress(text, start, end + 1);
        }
    }
}

/// Split a text into batches of at most as many distinct characters beyond
/// ASCII as one keymap places.
pub fn split_batches(text: &[char]) -> (r: Vec<Batch>)
    ensures
        batch_views(r@) == batches_from(text@, 0),
{
    let mut r: Vec<Batch> = Vec::new();
    let mut start: usize = 0;
    assert(batch_views(r@) + batches_from(text@, 0) =~= batches_from(text@, 0));
    while start < text.len()
        invariant
            start <= text@.len(),
            batch_views(r@) + batches_from(text@, start as int) == batches_from(text@, 0),
        decreases text@.len() - start,
    {
        let mut taken: Vec<char> = Vec::new();
        let mut chars: Vec<char> = Vec::new();
        let mut end: usize = start;
        let mut full = false;
        proof {
            batch_end_progress(text@, start as int, start as int);
        }
        assert(chars@ =~= text@.subrange(start as int, end as int));
        while end < text.len() && !full
            invariant
                start <= end <= text@.len(),
                taken@ == batch_chars(text@, start as int, end as int),
                chars@ == text@.subrange(start as int, end as int),
                batch_end(text@, start as int, start as int) == batch_end(
                    text@,
                    start as int,
                    end as int,
                ),
                full ==> batch_end(text@, start as int, start as int) == end,
            decreases text@.len() - end + (if full { 0int } else { 1 }),
        {
            let c = text[end];
            let takes = special_base_keycode(c).is_none() && !is_permanent_ascii(c);
            let known = has_char(&taken, c);
            if takes && !known && taken.len() >= SAFE_KEYS {
                full = true;
            } else {
                if takes && !known {
                    taken.push(c);
                }
                chars.push(c);
                end += 1;
                assert(chars@ =~= text@.subrange(start as int, end as int));
            }
        }
        let ghost before = batch_views(r@);
        let ghost one = (
            Some(batch_chars(text@, start as int, end as int)),
            text@.subrange(start as int, end as int),
        );
        r.push(Batch { upload: Some(taken), chars });
        assert(batch_views(r@) =~= before.push(one));
        assert(batch_views(r@) + batches_from(text@, end as int) =~= before + (seq![one]
            + batches_from(text@, end as int)));
        start = end;
    }
    assert(batch_views(r@) + batches_from(text@, start as int) =~= batch_views(r@));
    r
}

/// What to do to type a text.
#[derive(Debug, Clone)]
pub struct TextPlan {
    pub batches: Vec<Batch>,
    /// The text has more distinct characters beyond ASCII than one keymap
    /// places.
    pub over_capacity: bool,
}

/// What the virtual keyboard remembers between texts.
#[derive(Debug, Clone)]
pub struct VirtualKeyboard {
    /// The characters to place in the keymap, in the order of their first use.
    pub ordered_chars: Vec<char>,
    /// The characters that the uploaded keymap places beyond ASCII.
    pub dynamic: Vec<char>,
    /// Whether the current keymap has been uploaded.
    pub keymap_uploaded: bool,
}

/// The mask that declares the modifier of a level.
pub open spec fn level_mask(l: Level) -> u32 {
    match l {
        Level::Base => 0,
        Level::Shift => SHIFT_MOD_MASK,
        Level::AltGr => ALTGR_MOD_MASK,
    }
}

/// The keycode that goes over the wire for an XKB keycode.
pub open spec fn wire(keycode: u32) -> u32 {
    if keycode >= EVDEV_XKB_OFFSET {
        (keycode - EVDEV_XKB_OFFSET) as u32
    } else {
        0
    }
}

/// The events that tap a key without a modifier.
pub open spec fn tap(keycode: u32) -> Seq<KeyEvent> {
    seq![KeyEvent::Press(wire(keycode)), KeyEvent::Release(wire(keycode))]
}

/// The events that tap a key at its level: the modifier is declared before
/// the key and withdrawn after it.
pub open spec fn tap_at_level(k: CharKey) -> Seq<KeyEvent> {
    let mask = level_mask(k.level);
    if mask == 0 {
        tap(k.keycode)
    } else {
        seq![KeyEvent::Modifiers(mask)] + tap(k.keycode) + seq![KeyEvent::Modifiers(0)]
    }
}

/// The events that type one character where `dynamic` are placed. A character
/// without a place has none.
pub open spec fn char_events(dynamic: Seq<char>, c: char) -> Seq<KeyEvent> {
    match special_place(c) {
        Some(keycode) => tap(keycode),
        None => match place(dynamic, c) {
            Some(k) => tap_at_level(k),
            None => seq![],
        },
    }
}

/// The events that type the first `n` characters of `text`.
pub open spec fn text_events(dynamic: Seq<char>, text: Seq<char>, n: nat) -> Seq<KeyEvent>
    decreases n,
{
    if n == 0 {
        seq![]
    } else {
        text_events(dynamic, text, (n - 1) as nat) + char_events(dynamic, text[n - 1])
    }
}

fn push_tap(out: &mut Vec<KeyEvent>, keycode: u32)
    ensures
        final(out)@ == old(out)@ + tap(keycode),
{
    let ghost before = out@;
    let code: u32 = xkb_to_evdev_keycode(keycode);
    out.push(KeyEvent::Press(code));
    out.push(KeyEvent::Release(code));
    assert(out@ =~= before + tap(keycode));
}

impl VirtualKeyboard {
    /// The uploaded keymap places no more characters than it has keys for.
    pub open spec fn wf(self) -> bool {
        self.dynamic@.len() <= SAFE_KEYS
    }

    /// A keyboard that nothing was typed on yet.
    pub fn new() -> (r: Self)
        ensures
            r.wf(),
            r.ordered_chars@ == Seq::<char>::empty(),
            r.dynamic@ == Seq::<char>::empty(),
            !r.keymap_uploaded,
    {
        VirtualKeyboard {
            ordered_chars: Vec::new(),
            dynamic: Vec::new(),
            keymap_uploaded: false,
        }
    }

    /// Plan to type `text`.
    ///
    /// The uploaded keymap is reused unless the text brings a character that
    /// it does not place. The new keymap then keeps the characters of the old
    /// one as far as they fit, and places every character of the text. A text
    /// that is too much for one keymap is cut into batches.
    pub fn plan_text(&mut self, glyphs: &[Glyph], text: &str) -> (r: TextPlan)
        requires
            old(self).wf(),
        ensures
            final(self).wf(),
            final(self).keymap_uploaded == old(self).keymap_uploaded,
            ({
                let w = wanted(glyphs@, text@, text@.len());
                let fresh = without(w, old(self).dynamic@);
                if text@.len() == 0 {
                    &&& *final(self) == *old(self)
                    &&& !r.over_capacity
                    &&& batch_views(r.batches@) == Seq::<(Option<Seq<char>>, Seq<char>)>::empty()
                } else if w.len() > SAFE_KEYS {
                    &&& r.over_capacity
                    &&& final(self).ordered_chars@ == Seq::<char>::empty()
                    &&& final(self).dynamic@ == Seq::<char>::empty()
                    &&& batch_views(r.batches@) == batches_from(text@, 0)
                } else if fresh.len() == 0 {
                    &&& *final(self) == *old(self)
                    &&& !r.over_capacity
                    &&& batch_views(r.batches@) == seq![
                        (
                            if old(self).keymap_uploaded {
                                None
                            } else {
                                Some(old(self).ordered_chars@)
                            },
                            text@,
                        ),
                    ]
                } else {
                    &&& !r.over_capacity
                    &&& final(self).dynamic == old(self).dynamic
                    &&& final(self).ordered_chars@ == next_chars(
                        old(self).ordered_chars@,
                        w,
                        old(self).dynamic@,
                    )
                    &&& batch_views(r.batches@) == seq![
                        (Some(final(self).ordered_chars@), text@),
                    ]
                }
            }),
    {
        let chars = to_chars(text);
        if chars.len() == 0 {
            let r = TextPlan { batches: Vec::new(), over_capacity: false };
            assert(batch_views(r.batches@) =~= seq![]);
            return r;
        }
        let w = dynamic_chars(glyphs, &chars);
        let capacity: usize = dynamic_capacity();
        if w.len() > capacity {
            self.ordered_chars = Vec::new();
            self.dynamic = Vec::new();
            return TextPlan { batches: split_batches(&chars), over_capacity: true };
        }
        let fresh = chars_without(&w, &self.dynamic);
        let mut batches: Vec<Batch> = Vec::new();
        if fresh.len() == 0 {
            let upload: Option<Vec<char>> = if self.keymap_uploaded {
                None
            } else {
                Some(copy_chars(&self.ordered_chars))
            };
            batches.push(Batch { upload, chars });
            assert(batch_views(batches@) =~= seq![
                (
                    if old(self).keymap_uploaded {
                        None
                    } else {
                        Some(old(self).ordered_chars@)
                    },
                    text@,
                ),
            ]);
            return TextPlan { batches, over_capacity: false };
        }
        let mut all = copy_chars(&self.ordered_chars);
        append_chars(&mut all, &fresh);
        if all.len() > capacity {
            let k: usize = all.len() - capacity;
            all = evict_oldest(&all, &w, k);
        }
        let upload = copy_chars(&all);
        self.ordered_chars = all;
        batches.push(Batch { upload: Some(upload), chars });
        assert(batch_views(batches@) =~= seq![(Some(self.ordered_chars@), text@)]);
        TextPlan { batches, over_capacity: false }
    }

    /// Record that `keymap` has been uploaded.
    pub fn uploaded(&mut self, keymap: &Keymap)
        requires
            keymap.dynamic@.len() <= SAFE_KEYS,
        ensures
            final(self).wf(),
            final(self).dynamic@ == keymap.dynamic@,
            final(self).keymap_uploaded,
            final(self).ordered_chars == old(self).ordered_chars,
    {
        self.dynamic = copy_chars(&keymap.dynamic);
        self.keymap_uploaded = true;
    }

    /// Record that all batches of `plan` have been typed. After a text that
    /// was cut into batches the keyboard starts afresh.
    pub fn finish_text(&mut self, plan: &TextPlan)
        requires
            old(self).wf(),
        ensures
            final(self).wf(),
            !plan.over_capacity ==> *final(self) == *old(self),
            plan.over_capacity ==> {
                &&& final(self).ordered_chars@ == Seq::<char>::empty()
                &&& final(self).dynamic@ == Seq::<char>::empty()
                &&& !final(self).keymap_uploaded
            },
    {
        if plan.over_capacity {
            self.ordered_chars = Vec::new();
            self.dynamic = Vec::new();
            self.keymap_uploaded = false;
        }
    }

    /// The characters of the keymap to upload before keys are sent that every
    /// keymap has, if none has been uploaded yet.
    pub fn upload_for_base_keys(&self) -> (r: Option<Vec<char>>)
        ensures
            match r {
                Some(v) => !self.keymap_uploaded && v@ == Seq::<char>::empty(),
                None => self.keymap_uploaded,
            },
    {
        if self.keymap_uploaded {
            None
        } else {
            Some(Vec::new())
        }
    }

    /// The events that type `chars` with the uploaded keymap.
    pub fn events_for(&self, chars: &[char]) -> (out: Vec<KeyEvent>)
        requires
            self.wf(),
        ensures
            out@ == text_events(self.dynamic@, chars@, chars@.len()),
    {
        let mut out: Vec<KeyEvent> = Vec::new();
        let mut i: usize = 0;
        while i < chars.len()
            invariant
                self.wf(),
                i <= chars@.len(),
                out@ == text_events(self.dynamic@, chars@, i as nat),
            decreases chars@.len() - i,
        {
            let c = chars[i];
            let ghost before = out@;
            match special_base_keycode(c) {
                Some(keycode) => push_tap(&mut out, keycode),
                None => match find_key(&self.dynamic, c) {
                    Some(k) => {
                        let mask: u32 = match k.level {
                            Level::Base => 0,
                            Level::Shift => SHIFT_MOD_MASK,
                            Level::AltGr => ALTGR_MOD_MASK,
                        };
                        if mask != 0 {
                            out.push(KeyEvent::Modifiers(mask));
                        }
                        push_tap(&mut out, k.keycode);
                        if mask != 0 {
                            out.push(KeyEvent::Modifiers(0));
                        }
                    },
                    None => {},
                },
            }
            assert(out@ =~= before + char_events(self.dynamic@, c));
            i += 1;
        }
        out
    }
}

fn copy_chars(v: &[char]) -> (r: Vec<char>)
    ensures
        r@ == v@,
{
    let r = range_of(v, 0, v.len());
    assert(v@.subrange(0, v@.len() as int) =~= v@);
    r
}

fn append_chars(v: &mut Vec<char>, more: &[char])
    ensures
        final(v)@ == old(v)@ + more@,
{
    let ghost before = v@;
    let mut i: usize = 0;
    assert(v@ =~= before + more@.take(0));
    while i < more.len()
        invariant
            i <= more@.len(),
            v@ == before + more@.take(i as int),
        decreases more@.len() - i,
    {
        v.push(more[i]);
        i += 1;
        assert(v@ =~= before + more@.take(i as int));
    }
    assert(more@.take(more@.len() as int) =~= more@);
}

/// The events of one press of BackSpace.
pub fn backspace_events() -> (out: Vec<KeyEvent>)
    ensures
        out@ == tap(fixed_keycode(FixedKey::Backspace)),
{
    let mut out: Vec<KeyEvent> = Vec::new();
    push_tap(&mut out, base_keycode(FixedKey::Backspace));
    assert(out@ =~= tap(fixed_keycode(FixedKey::Backspace)));
    out
}

/// Whether a key is a Control key.
pub open spec fn is_ctrl(code: u16) -> bool {
    code == fixed_code(FixedKey::LeftCtrl) || code == fixed_code(FixedKey::RightCtrl)
}

/// Whether a key is a Shift key.
pub open spec fn is_shift(code: u16) -> bool {
    code == fixed_code(FixedKey::LeftShift) || code == fixed_code(FixedKey::RightShift)
}

/// The mask that declares the modifiers among `keys`.
pub open spec fn combo_mask(keys: Seq<u16>) -> u32 {
    let ctrl = exists|i: int| 0 <= i < keys.len() && is_ctrl(#[trigger] keys[i]);
    let shift = exists|i: int| 0 <= i < keys.len() && is_shift(#[trigger] keys[i]);
    if ctrl && shift {
        5
    } else if ctrl {
        CTRL_MOD_MASK
    } else if shift {
        SHIFT_MOD_MASK
    } else {
        0
    }
}

/// The keys among the first `n` of `keys` that are no modifiers.
pub open spec fn plain_keys(keys: Seq<u16>, n: nat) -> Seq<u16>
    decreases n,
{
    if n == 0 {
        seq![]
    } else {
        let before = plain_keys(keys, (n - 1) as nat);
        if is_ctrl(keys[n - 1]) || is_shift(keys[n - 1]) {
            before
        } else {
            before.push(keys[n - 1])
        }
    }
}

/// The events of a combo: the modifiers are declared, the other keys pressed
/// in order and released in reverse, and the modifiers withdrawn.
pub open spec fn combo_events_of(keys: Seq<u16>) -> Seq<KeyEvent> {
    let mask = combo_mask(keys);
    let plain = plain_keys(keys, keys.len());
    let taps = Seq::new(plain.len(), |i: int| KeyEvent::Press(plain[i] as u32)) + Seq::new(
        plain.len(),
        |i: int| KeyEvent::Release(plain[plain.len() - 1 - i] as u32),
    );
    if mask == 0 {
        taps
    } else {
        seq![KeyEvent::Modifiers(mask)] + taps + seq![KeyEvent::Modifiers(0)]
    }
}

/// The events that send a key combo (e.g. Ctrl+V), given the evdev codes of
/// its keys.
pub fn combo_events(keys: &[u16]) -> (out: Vec<KeyEvent>)
    ensures
        out@ == combo_events_of(keys@),
{
    let mut ctrl = false;
    let mut shift = false;
    let mut plain: Vec<u16> = Vec::new();
    let mut i: usize = 0;
    while i < keys.len()
        invariant
            i <= keys@.len(),
            ctrl == (exists|j: int| 0 <= j < i && is_ctrl(#[trigger] keys@[j])),
            shift == (exists|j: int| 0 <= j < i && is_shift(#[trigger] keys@[j])),
            plain@ == plain_keys(keys@, i as nat),
        decreases keys@.len() - i,
    {
        let k: u16 = keys[i];
        if k == evdev_code(FixedKey::LeftCtrl) || k == evdev_code(FixedKey::RightCtrl) {
            ctrl = true;
            assert(is_ctrl(keys@[i as int]));
        } else if k == evdev_code(FixedKey::LeftShift) || k == evdev_code(FixedKey::RightShift) {
            shift = true;
            assert(is_shift(keys@[i as int]));
        } else {
            plain.push(k);
        }
        i += 1;
    }
    let mask: u32 = if ctrl && shift {
        5
    } else if ctrl {
        CTRL_MOD_MASK
    } else if shift {
        SHIFT_MOD_MASK
    } else {
        0
    };
    let mut out: Vec<KeyEvent> = Vec::new();
    if mask != 0 {
        out.push(KeyEvent::Modifiers(mask));
    }
    let ghost head = out@;
    let ghost presses = Seq::new(plain@.len(), |i: int| KeyEvent::Press(plain@[i] as u32));
    let mut i: usize = 0;
    while i < plain.len()
        invariant
            i <= plain@.len(),
            presses == Seq::new(plain@.len(), |i: int| KeyEvent::Press(plain@[i] as u32)),
            out@ == head + presses.take(i as int),
        decreases plain@.len() - i,
    {
        out.push(KeyEvent::Press(xkb_to_evdev_keycode(plain[i] as u32 + EVDEV_XKB_OFFSET)));
        i += 1;
        assert(out@ =~= head + presses.take(i as int));
    }
    assert(presses.take(plain@.len() as int) =~= presses);
    let ghost mid = out@;
    let ghost releases = Seq::new(
        plain@.len(),
        |i: int| KeyEvent::Release(plain@[plain@.len() - 1 - i] as u32),
    );
    let mut i: usize = 0;
    assert(mid =~= mid + releases.take(0));
    while i < plain.len()
        invariant
            i <= plain@.len(),
            releases == Seq::new(
                plain@.len(),
                |i: int| KeyEvent::Release(plain@[plain@.len() - 1 - i] as u32),
            ),
            out@ == mid + releases.take(i as int),
        decreases plain@.len() - i,
    {
        let k: u16 = plain[plain.len() - 1 - i];
        out.push(KeyEvent::Release(xkb_to_evdev_keycode(k as u32 + EVDEV_XKB_OFFSET)));
        i += 1;
        assert(out@ =~= mid + releases.take(i as int));
    }
    assert(releases.take(plain@.len() as int) =~= releases);
    if mask != 0 {
        out.push(KeyEvent::Modifiers(0));
    }
    assert(out@ =~= combo_events_of(keys@));
    out
}

/// The time stamp of the event after one at `time`: `delay_ms` milliseconds
/// later, of which the low 32 bits count, and never beyond the last stamp.
pub fn next_time(time: u32, delay_ms: u128) -> (r: u32)
    ensures
        r == (if time + delay_ms % 0x1_0000_0000 > u32::MAX {
            u32::MAX as int
        } else {
            time + delay_ms % 0x1_0000_0000
        }),
{
    let step: u32 = (delay_ms % 0x1_0000_0000) as u32;
    if step > u32::MAX - time {
        u32::MAX
    } else {
        time + step
    }
}

} // verus!
