//! Characters and strings: white space, trimming, splitting, joining, and
//! decimal numbers, each with its meaning as a function on sequences.

use vstd::prelude::*;
use vstd::utf8::encode_utf8;

verus! {

/// `String::push` appends one character and changes nothing else.
pub assume_specification[ String::push ](s: &mut String, c: char)
    ensures
        final(s)@ == old(s)@.push(c),
;

/// `String::push_str` appends the characters of `t` and changes nothing else.
pub assume_specification[ String::push_str ](s: &mut String, t: &str)
    ensures
        final(s)@ == old(s)@ + t@,
;

/// The lower case of a text, as `str::to_lowercase` gives it.
pub uninterp spec fn lowercase(s: Seq<char>) -> Seq<char>;

/// `str::to_lowercase`: the lower case of the text, by Unicode's rules, which
/// depends on the text alone.
pub assume_specification[ str::to_lowercase ](s: &str) -> (r: String)
    ensures
        r@ == lowercase(s@),
;

/// The contents of each string of `v`, in order.
pub open spec fn texts(v: Seq<String>) -> Seq<Seq<char>> {
    Seq::new(v.len(), |i: int| v[i]@)
}

/// What an optional string holds.
pub open spec fn opt_text(o: Option<String>) -> Option<Seq<char>> {
    match o {
        Some(s) => Some(s@),
        None => None,
    }
}

/// Unicode's `White_Space` property.
pub open spec fn is_white(c: char) -> bool {
    ||| 0x09 <= c as u32 <= 0x0d
    ||| c as u32 == 0x20
    ||| c as u32 == 0x85
    ||| c as u32 == 0xa0
    ||| c as u32 == 0x1680
    ||| 0x2000 <= c as u32 <= 0x200a
    ||| c as u32 == 0x2028
    ||| c as u32 == 0x2029
    ||| c as u32 == 0x202f
    ||| c as u32 == 0x205f
    ||| c as u32 == 0x3000
}

/// Whether `c` is white space.
pub fn is_whitespace(c: char) -> (r: bool)
    ensures
        r == is_white(c),
{
    let u: u32 = c as u32;
    (0x09 <= u && u <= 0x0d) || u == 0x20 || u == 0x85 || u == 0xa0 || u == 0x1680 || (0x2000 <= u
        && u <= 0x200a) || u == 0x2028 || u == 0x2029 || u == 0x202f || u == 0x205f || u == 0x3000
}

/// The characters of `s`.
pub fn to_chars(s: &str) -> (v: Vec<char>)
    ensures
        v@ == s@,
{
    let mut v: Vec<char> = Vec::new();
    for c in it: s.chars()
        invariant
            it.seq() == s@,
            v@ == s@.take(it.index() as int),
    {
        v.push(c);
        assert(v@ =~= s@.take(it.index() + 1));
    }
    assert(s@.take(s@.len() as int) =~= s@);
    v
}

/// The string that holds the characters of `v`.
pub fn to_text(v: &[char]) -> (s: String)
    ensures
        s@ == v@,
{
    let mut s = String::new();
    let mut i: usize = 0;
    while i < v.len()
        invariant
            i <= v@.len(),
            s@ == v@.take(i as int),
        decreases v@.len() - i,
    {
        s.push(v[i]);
        i += 1;
        assert(s@ =~= v@.take(i as int));
    }
    assert(v@.take(v@.len() as int) =~= v@);
    s
}

/// The characters of `v` from `from` up to `to`.
pub fn range_of(v: &[char], from: usize, to: usize) -> (r: Vec<char>)
    requires
        from <= to <= v@.len(),
    ensures
        r@ == v@.subrange(from as int, to as int),
{
    let mut r: Vec<char> = Vec::new();
    let mut i: usize = from;
    while i < to
        invariant
            from <= i <= to <= v@.len(),
            r@ == v@.subrange(from as int, i as int),
        decreases to - i,
    {
        r.push(v[i]);
        i += 1;
        assert(r@ =~= v@.subrange(from as int, i as int));
    }
    r
}

/// Whether two strings hold the same characters.
pub fn same_text(a: &str, b: &str) -> (r: bool)
    ensures
        r == (a@ == b@),
{
    same_chars(&to_chars(a), &to_chars(b))
}

/// Whether two slices hold the same characters.
pub fn same_chars(a: &[char], b: &[char]) -> (r: bool)
    ensures
        r == (a@ == b@),
{
    if a.len() != b.len() {
        return false;
    }
    let mut i: usize = 0;
    while i < a.len()
        invariant
            i <= a@.len(),
            a@.len() == b@.len(),
            forall|j: int| 0 <= j < i ==> a@[j] == b@[j],
        decreases a@.len() - i,
    {
        if a[i] != b[i] {
            return false;
        }
        i += 1;
    }
    assert(a@ =~= b@);
    true
}

/// A copy of an optional string.
pub fn clone_opt(o: &Option<String>) -> (r: Option<String>)
    ensures
        opt_text(r) == opt_text(*o),
        r == *o,
{
    match o {
        Some(s) => Some(s.clone()),
        None => None,
    }
}

/// A copy of a list of strings.
pub fn clone_texts(v: &[String]) -> (r: Vec<String>)
    ensures
        r@ == v@,
{
    let mut r: Vec<String> = Vec::new();
    let mut i: usize = 0;
    while i < v.len()
        invariant
            i <= v@.len(),
            r@ == v@.take(i as int),
        decreases v@.len() - i,
    {
        r.push(v[i].clone());
        i += 1;
        assert(r@ =~= v@.take(i as int));
    }
    assert(v@.take(v@.len() as int) =~= v@);
    r
}

/// What each string slice of `v` holds, in order.
pub open spec fn str_views(v: Seq<&str>) -> Seq<Seq<char>> {
    Seq::new(v.len(), |i: int| v[i]@)
}

/// A list of strings with the given contents.
pub fn text_list(v: &[&str]) -> (r: Vec<String>)
    ensures
        texts(r@) == str_views(v@),
{
    let mut r: Vec<String> = Vec::new();
    let mut i: usize = 0;
    while i < v.len()
        invariant
            i <= v@.len(),
            texts(r@) == str_views(v@).take(i as int),
        decreases v@.len() - i,
    {
        let ghost before = texts(r@);
        r.push(v[i].to_owned());
        assert(texts(r@) =~= before.push(v@[i as int]@));
        i += 1;
        assert(texts(r@) =~= str_views(v@).take(i as int));
    }
    assert(str_views(v@).take(v@.len() as int) =~= str_views(v@));
    r
}

/// `s` without its leading white space.
pub open spec fn trim_start(s: Seq<char>) -> Seq<char>
    decreases s.len(),
{
    if s.len() > 0 && is_white(s[0]) {
        trim_start(s.drop_first())
    } else {
        s
    }
}

/// `s` without its trailing white space.
pub open spec fn trim_end(s: Seq<char>) -> Seq<char>
    decreases s.len(),
{
    if s.len() > 0 && is_white(s.last()) {
        trim_end(s.drop_last())
    } else {
        s
    }
}

/// `s` without the white space around it.
pub open spec fn trim(s: Seq<char>) -> Seq<char> {
    trim_end(trim_start(s))
}

/// The index of the first character of `v` at or after `from` that is not
/// white space, or the length of `v`.
pub fn skip_white(v: &[char], from: usize) -> (i: usize)
    requires
        from <= v@.len(),
    ensures
        from <= i <= v@.len(),
        trim_start(v@.skip(from as int)) == v@.skip(i as int),
        i < v@.len() ==> !is_white(v@[i as int]),
        forall|j: int| from <= j < i ==> is_white(v@[j]),
{
    let mut i: usize = from;
    while i < v.len() && is_whitespace(v[i])
        invariant
            from <= i <= v@.len(),
            trim_start(v@.skip(from as int)) == trim_start(v@.skip(i as int)),
            forall|j: int| from <= j < i ==> is_white(v@[j]),
        decreases v@.len() - i,
    {
        assert(v@.skip(i as int)[0] == v@[i as int]);
        assert(v@.skip(i as int).drop_first() =~= v@.skip(i + 1));
        i += 1;
    }
    i
}

/// `v` without the white space around it.
pub fn trimmed_chars(v: &[char]) -> (r: Vec<char>)
    ensures
        r@ == trim(v@),
{
    let start: usize = skip_white(v, 0);
    assert(v@.skip(0) =~= v@);
    let mut end: usize = v.len();
    assert(v@.subrange(start as int, end as int) =~= v@.skip(start as int));
    while start < end && is_whitespace(v[end - 1])
        invariant
            start <= end <= v@.len(),
            trim(v@) == trim_end(v@.subrange(start as int, end as int)),
        decreases end,
    {
        let ghost whole = v@.subrange(start as int, end as int);
        assert(whole.last() == v@[end - 1]);
        assert(whole.drop_last() =~= v@.subrange(start as int, end - 1));
        end -= 1;
    }
    let ghost whole = v@.subrange(start as int, end as int);
    assert(whole.len() > 0 ==> whole.last() == v@[end - 1]);
    range_of(v, start, end)
}

/// `s` without the white space around it.
pub fn trimmed(s: &str) -> (r: String)
    ensures
        r@ == trim(s@),
{
    to_text(&trimmed_chars(&to_chars(s)))
}

/// Trimming what is already trimmed changes nothing.
pub proof fn trim_idempotent(s: Seq<char>)
    ensures
        trim(trim(s)) == trim(s),
{
    trim_ends(s);
    let t = trim(s);
    if t.len() > 0 {
        assert(trim_start(t) == t);
        assert(trim_end(t) == t);
    }
}

/// A trimmed text is a stretch of the text it came from, and neither starts
/// nor ends with white space.
pub proof fn trim_ends(s: Seq<char>)
    ensures
        trim(s).len() > 0 ==> !is_white(trim(s)[0]) && !is_white(trim(s).last()),
        trim(s).len() <= s.len(),
        exists|a: int, b: int| 0 <= a <= b <= s.len() && trim(s) == #[trigger] s.subrange(a, b),
{
    let a = trim_start_suffix(s);
    let t = trim_start(s);
    let b = trim_end_prefix(t);
    assert(trim(s) =~= s.subrange(a, a + b));
    if trim(s).len() > 0 {
        assert(trim(s)[0] == t[0]);
    }
}

/// `trim_start` drops a prefix.
pub proof fn trim_start_suffix(s: Seq<char>) -> (a: int)
    ensures
        0 <= a <= s.len(),
        trim_start(s) == s.skip(a),
        forall|i: int| 0 <= i < a ==> is_white(s[i]),
        a < s.len() ==> !is_white(s[a]),
    decreases s.len(),
{
    if s.len() > 0 && is_white(s[0]) {
        let b = trim_start_suffix(s.drop_first());
        assert(s.drop_first().skip(b) =~= s.skip(b + 1));
        assert forall|i: int| 0 <= i < b + 1 implies is_white(s[i]) by {
            if i > 0 {
                assert(s[i] == s.drop_first()[i - 1]);
            }
        }
        if b + 1 < s.len() {
            assert(s[b + 1] == s.drop_first()[b]);
        }
        b + 1
    } else {
        assert(s.skip(0) =~= s);
        0
    }
}

/// `trim_end` drops a suffix.
pub proof fn trim_end_prefix(s: Seq<char>) -> (b: int)
    ensures
        0 <= b <= s.len(),
        trim_end(s) == s.take(b),
        forall|i: int| b <= i < s.len() ==> is_white(s[i]),
        b > 0 ==> !is_white(s[b - 1]),
    decreases s.len(),
{
    if s.len() > 0 && is_white(s.last()) {
        let b = trim_end_prefix(s.drop_last());
        assert(s.drop_last().take(b) =~= s.take(b));
        assert forall|i: int| b <= i < s.len() implies is_white(s[i]) by {
            if i < s.len() - 1 {
                assert(s[i] == s.drop_last()[i]);
            }
        }
        b
    } else {
        assert(s.take(s.len() as int) =~= s);
        s.len() as int
    }
}

/// The number of leading characters of `s` that are not white space.
pub open spec fn word_len(s: Seq<char>) -> nat
    decreases s.len(),
{
    if s.len() > 0 && !is_white(s[0]) {
        1 + word_len(s.drop_first())
    } else {
        0
    }
}

/// The maximal stretches of `s` without white space, in order.
pub open spec fn words(s: Seq<char>) -> Seq<Seq<char>>
    decreases s.len(),
{
    if s.len() == 0 {
        seq![]
    } else if is_white(s[0]) {
        words(s.drop_first())
    } else {
        let n = word_len(s);
        if 0 < n <= s.len() {
            seq![s.take(n as int)] + words(s.skip(n as int))
        } else {
            seq![]
        }
    }
}

/// A word is no longer than the text, and not empty where one begins.
pub proof fn word_len_bound(s: Seq<char>)
    ensures
        word_len(s) <= s.len(),
        s.len() > 0 && !is_white(s[0]) ==> word_len(s) > 0,
    decreases s.len(),
{
    if s.len() > 0 && !is_white(s[0]) {
        word_len_bound(s.drop_first());
    }
}

/// The words of `v`, each with its characters.
pub fn split_words(v: &[char]) -> (r: Vec<Vec<char>>)
    ensures
        r@.len() == words(v@).len(),
        forall|i: int| 0 <= i < r@.len() ==> (#[trigger] r@[i])@ == words(v@)[i],
{
    let mut r: Vec<Vec<char>> = Vec::new();
    let mut i: usize = 0;
    assert(v@.skip(0) =~= v@);
    while i < v.len()
        invariant
            i <= v@.len(),
            words(v@).len() == r@.len() + words(v@.skip(i as int)).len(),
            forall|j: int| 0 <= j < r@.len() ==> (#[trigger] r@[j])@ == words(v@)[j],
            forall|j: int|
                0 <= j < words(v@.skip(i as int)).len() ==> #[trigger] words(v@.skip(i as int))[j]
                    == words(v@)[r@.len() + j],
        decreases v@.len() - i,
    {
        let ghost rest = v@.skip(i as int);
        assert(rest[0] == v@[i as int]);
        if is_whitespace(v[i]) {
            assert(rest.drop_first() =~= v@.skip(i + 1));
            i += 1;
        } else {
            let start: usize = i;
            while i < v.len() && !is_whitespace(v[i])
                invariant
                    start <= i <= v@.len(),
                    word_len(v@.skip(start as int)) == (i - start) + word_len(v@.skip(i as int)),
                decreases v@.len() - i,
            {
                assert(v@.skip(i as int)[0] == v@[i as int]);
                assert(v@.skip(i as int).drop_first() =~= v@.skip(i + 1));
                i += 1;
            }
            let ghost n = word_len(rest);
            proof {
                word_len_bound(rest);
                if i < v@.len() {
                    assert(v@.skip(i as int)[0] == v@[i as int]);
                }
                assert(n == i - start);
                assert(rest.take(n as int) =~= v@.subrange(start as int, i as int));
                assert(rest.skip(n as int) =~= v@.skip(i as int));
                assert(words(rest)[0] == words(v@)[r@.len() as int]);
            }
            let w = range_of(v, start, i);
            let ghost before = r@;
            r.push(w);
            proof {
                assert forall|j: int| 0 <= j < words(v@.skip(i as int)).len() implies
                    #[trigger] words(v@.skip(i as int))[j] == words(v@)[r@.len() + j] by {
                    assert(words(rest)[j + 1] == words(v@)[before.len() + j + 1]);
                }
            }
        }
    }
    assert(v@.skip(i as int).len() == 0);
    r
}

/// The number of bytes of `s` in UTF-8.
pub open spec fn utf8_len(s: Seq<char>) -> nat {
    encode_utf8(s).len()
}

/// The parts of `s` between the occurrences of `sep`.
pub open spec fn split_on(s: Seq<char>, sep: char) -> Seq<Seq<char>>
    decreases s.len(),
{
    if s.len() == 0 {
        seq![seq![]]
    } else if s.last() == sep {
        split_on(s.drop_last(), sep).push(seq![])
    } else {
        let head = split_on(s.drop_last(), sep);
        head.drop_last().push(head.last().push(s.last()))
    }
}

/// There is always a part, even of an empty text.
pub proof fn split_on_nonempty(s: Seq<char>, sep: char)
    ensures
        split_on(s, sep).len() > 0,
    decreases s.len(),
{
    if s.len() > 0 {
        split_on_nonempty(s.drop_last(), sep);
    }
}

/// Text without the separator continues the last part.
pub proof fn split_appends(a: Seq<char>, b: Seq<char>, sep: char)
    requires
        !b.contains(sep),
    ensures
        split_on(a + b, sep) == split_on(a, sep).drop_last().push(split_on(a, sep).last() + b),
    decreases b.len(),
{
    let head = split_on(a, sep);
    split_on_nonempty(a, sep);
    if b.len() == 0 {
        assert(a + b =~= a);
        assert(head.last() + b =~= head.last());
        assert(head =~= head.drop_last().push(head.last()));
    } else {
        let front = b.drop_last();
        assert(!front.contains(sep)) by {
            if front.contains(sep) {
                let i = choose|i: int| 0 <= i < front.len() && front[i] == sep;
                assert(b[i] == sep);
            }
        }
        split_appends(a, front, sep);
        assert((a + b).drop_last() =~= a + front);
        assert((a + b).last() == b.last());
        assert(b[b.len() - 1] != sep);
        let prev = head.drop_last().push(head.last() + front);
        assert(prev.drop_last() =~= head.drop_last());
        assert((head.last() + front).push(b.last()) =~= head.last() + b);
    }
}

/// The contents of each element of `v`, in order.
pub open spec fn char_views(v: Seq<Vec<char>>) -> Seq<Seq<char>> {
    Seq::new(v.len(), |i: int| v[i]@)
}

/// The parts of `v` between the occurrences of `sep`.
pub fn split_char(v: &[char], sep: char) -> (r: Vec<Vec<char>>)
    ensures
        char_views(r@) == split_on(v@, sep),
{
    let mut done: Vec<Vec<char>> = Vec::new();
    let mut part: Vec<char> = Vec::new();
    let mut i: usize = 0;
    assert(v@.take(0) =~= Seq::<char>::empty());
    assert(char_views(done@).push(part@) =~= split_on(v@.take(0), sep));
    while i < v.len()
        invariant
            i <= v@.len(),
            char_views(done@).push(part@) == split_on(v@.take(i as int), sep),
        decreases v@.len() - i,
    {
        let ghost t = v@.take(i + 1);
        let ghost before = char_views(done@).push(part@);
        assert(t.drop_last() =~= v@.take(i as int));
        if v[i] == sep {
            done.push(part);
            part = Vec::new();
            assert(char_views(done@) =~= before);
            assert(char_views(done@).push(part@) =~= split_on(t, sep));
        } else {
            part.push(v[i]);
            assert(before.drop_last() =~= char_views(done@));
            assert(char_views(done@).push(part@) =~= split_on(t, sep));
        }
        i += 1;
    }
    assert(v@.take(v@.len() as int) =~= v@);
    let ghost all = char_views(done@).push(part@);
    done.push(part);
    assert(char_views(done@) =~= all);
    done
}

/// The parts, with `sep` between each two of them.
pub open spec fn join(parts: Seq<Seq<char>>, sep: Seq<char>) -> Seq<char>
    decreases parts.len(),
{
    if parts.len() == 0 {
        seq![]
    } else if parts.len() == 1 {
        parts[0]
    } else {
        join(parts.drop_last(), sep) + sep + parts.last()
    }
}

/// The strings of `v`, with `sep` between each two of them.
pub fn join_texts(v: &[String], sep: &str) -> (r: String)
    ensures
        r@ == join(texts(v@), sep@),
{
    let mut r = String::new();
    let mut i: usize = 0;
    while i < v.len()
        invariant
            i <= v@.len(),
            r@ == join(texts(v@.take(i as int)), sep@),
        decreases v@.len() - i,
    {
        let ghost t = texts(v@.take(i + 1));
        assert(t.drop_last() =~= texts(v@.take(i as int)));
        assert(t.last() == v@[i as int]@);
        if i > 0 {
            r.push_str(sep);
            r.push_str(v[i].as_str());
        } else {
            r.push_str(v[i].as_str());
            assert(r@ =~= v@[0]@);
            assert(t.len() == 1 && t[0] == v@[0]@);
        }
        i += 1;
    }
    assert(v@.take(v@.len() as int) =~= v@);
    r
}

/// The decimal digit for `d`.
pub open spec fn digit(d: nat) -> char {
    (('0' as u32) + d) as char
}

/// `n` in decimal, without leading zeros.
pub open spec fn decimal(n: nat) -> Seq<char>
    decreases n,
{
    if n < 10 {
        seq![digit(n)]
    } else {
        decimal(n / 10).push(digit(n % 10))
    }
}

fn digit_char(d: u64) -> (c: char)
    requires
        d < 10,
    ensures
        c == digit(d as nat),
{
    match d {
        0 => '0',
        1 => '1',
        2 => '2',
        3 => '3',
        4 => '4',
        5 => '5',
        6 => '6',
        7 => '7',
        8 => '8',
        _ => '9',
    }
}

/// `n` in decimal.
pub fn decimal_text(n: u64) -> (s: String)
    ensures
        s@ == decimal(n as nat),
    decreases n,
{
    if n < 10 {
        let mut s = String::new();
        s.push(digit_char(n));
        assert(s@ =~= decimal(n as nat));
        s
    } else {
        let mut s = decimal_text(n / 10);
        s.push(digit_char(n % 10));
        s
    }
}

/// Whether `s` consists of decimal digits, at least one.
pub open spec fn all_digits(s: Seq<char>) -> bool {
    s.len() > 0 && forall|i: int| 0 <= i < s.len() ==> '0' <= #[trigger] s[i] <= '9'
}

/// The number that decimal digits stand for.
pub open spec fn digits_value(s: Seq<char>) -> nat
    decreases s.len(),
{
    if s.len() == 0 {
        0
    } else {
        (10 * digits_value(s.drop_last()) + (s.last() as int - '0' as int)) as nat
    }
}

/// The number that a text of digits stands for, with or without a plus sign
/// before it.
pub open spec fn unsigned_value(s: Seq<char>) -> Option<nat> {
    let t = if s.len() > 0 && s[0] == '+' {
        s.drop_first()
    } else {
        s
    };
    if all_digits(t) {
        Some(digits_value(t))
    } else {
        None
    }
}

proof fn digits_value_grows(s: Seq<char>, n: int)
    requires
        0 <= n <= s.len(),
        forall|i: int| 0 <= i < s.len() ==> '0' <= #[trigger] s[i] <= '9',
    ensures
        digits_value(s.take(n)) <= digits_value(s),
    decreases s.len() - n,
{
    if n == s.len() {
        assert(s.take(n) =~= s);
    } else {
        digits_value_grows(s, n + 1);
        assert(s.take(n + 1).drop_last() =~= s.take(n));
        assert(s.take(n + 1).last() == s[n]);
    }
}

/// Read an unsigned number: digits, with or without a plus sign before them.
/// There is none where the text is anything else or the number is too large.
pub fn parse_number(s: &str) -> (r: Option<u64>)
    ensures
        match r {
            Some(n) => unsigned_value(s@) == Some(n as nat),
            None => match unsigned_value(s@) {
                Some(n) => n > u64::MAX,
                None => true,
            },
        },
{
    let v = to_chars(s);
    let start: usize = if v.len() > 0 && v[0] == '+' {
        1
    } else {
        0
    };
    let t = range_of(&v, start, v.len());
    assert(t@ =~= (if s@.len() > 0 && s@[0] == '+' {
        s@.drop_first()
    } else {
        s@
    }));
    if t.len() == 0 {
        return None;
    }
    let mut i: usize = 0;
    while i < t.len()
        invariant
            i <= t@.len(),
            !all_digits(t@) ==> unsigned_value(s@) is None,
            forall|j: int| 0 <= j < i ==> '0' <= #[trigger] t@[j] <= '9',
        decreases t@.len() - i,
    {
        if t[i] < '0' || t[i] > '9' {
            assert(!('0' <= t@[i as int] <= '9'));
            return None;
        }
        i += 1;
    }
    let mut n: u64 = 0;
    let mut k: usize = 0;
    assert(t@.take(0) =~= Seq::<char>::empty());
    while k < t.len()
        invariant
            k <= t@.len(),
            all_digits(t@),
            unsigned_value(s@) == Some(digits_value(t@)),
            n == digits_value(t@.take(k as int)),
        decreases t@.len() - k,
    {
        let d: u64 = (t[k] as u32 - '0' as u32) as u64;
        proof {
            digits_value_grows(t@, k + 1);
            assert(t@.take(k + 1).drop_last() =~= t@.take(k as int));
            assert(t@.take(k + 1).last() == t@[k as int]);
        }
        if n > (u64::MAX - d) / 10 {
            return None;
        }
        n = 10 * n + d;
        k += 1;
    }
    assert(t@.take(t@.len() as int) =~= t@);
    Some(n)
}

/// Whether `s` begins with `prefix`.
pub open spec fn starts_with(s: Seq<char>, prefix: Seq<char>) -> bool {
    prefix.len() <= s.len() && s.take(prefix.len() as int) == prefix
}

/// Whether `s` ends with `suffix`.
pub open spec fn ends_with(s: Seq<char>, suffix: Seq<char>) -> bool {
    suffix.len() <= s.len() && s.skip(s.len() - suffix.len()) == suffix
}

/// Whether `part` occurs in `s`.
pub open spec fn has_text(s: Seq<char>, part: Seq<char>) -> bool {
    exists|i: int| 0 <= i <= s.len() - part.len() && #[trigger] s.subrange(i, i + part.len()) == part
}

fn matches_at(v: &[char], at: usize, part: &[char]) -> (r: bool)
    requires
        at + part@.len() <= v@.len(),
    ensures
        r == (v@.subrange(at as int, at + part@.len()) == part@),
{
    let n: usize = v.len();
    let mut j: usize = 0;
    while j < part.len()
        invariant
            at + part@.len() <= v@.len() == n,
            j <= part@.len(),
            forall|k: int| 0 <= k < j ==> v@[at + k] == part@[k],
        decreases part@.len() - j,
    {
        if v[at + j] != part[j] {
            assert(v@.subrange(at as int, at + part@.len())[j as int] != part@[j as int]);
            return false;
        }
        j += 1;
    }
    assert(v@.subrange(at as int, at + part@.len()) =~= part@);
    true
}

/// Whether `v` begins with `part`.
pub fn chars_start_with(v: &[char], part: &[char]) -> (r: bool)
    ensures
        r == starts_with(v@, part@),
{
    if part.len() > v.len() {
        return false;
    }
    assert(v@.take(part@.len() as int) =~= v@.subrange(0, part@.len() as int));
    matches_at(v, 0, part)
}

/// Whether `v` ends with `part`.
pub fn chars_end_with(v: &[char], part: &[char]) -> (r: bool)
    ensures
        r == ends_with(v@, part@),
{
    if part.len() > v.len() {
        return false;
    }
    assert(v@.skip(v@.len() - part@.len()) =~= v@.subrange(
        v@.len() - part@.len(),
        v@.len() as int,
    ));
    matches_at(v, v.len() - part.len(), part)
}

/// Whether `part` occurs in `v`.
pub fn chars_contain(v: &[char], part: &[char]) -> (r: bool)
    ensures
        r == has_text(v@, part@),
{
    if part.len() > v.len() {
        return false;
    }
    let mut i: usize = 0;
    while i <= v.len() - part.len()
        invariant
            part@.len() <= v@.len(),
            i <= v@.len() - part@.len() + 1,
            forall|k: int| 0 <= k < i ==> #[trigger] v@.subrange(k, k + part@.len()) != part@,
        decreases v@.len() - part@.len() + 1 - i,
    {
        if matches_at(v, i, part) {
            return true;
        }
        if i == v.len() - part.len() {
            return false;
        }
        i += 1;
    }
    false
}

/// Whether `s` begins with `prefix`.
pub fn text_starts_with(s: &str, prefix: &str) -> (r: bool)
    ensures
        r == starts_with(s@, prefix@),
{
    chars_start_with(&to_chars(s), &to_chars(prefix))
}

/// Whether `s` ends with `suffix`.
pub fn text_ends_with(s: &str, suffix: &str) -> (r: bool)
    ensures
        r == ends_with(s@, suffix@),
{
    chars_end_with(&to_chars(s), &to_chars(suffix))
}

/// Whether `part` occurs in `s`.
pub fn text_contains(s: &str, part: &str) -> (r: bool)
    ensures
        r == has_text(s@, part@),
{
    chars_contain(&to_chars(s), &to_chars(part))
}

/// Whether `v` holds a string equal to `s`.
pub fn contains_text(v: &[String], s: &str) -> (r: bool)
    ensures
        r == texts(v@).contains(s@),
{
    let mut i: usize = 0;
    while i < v.len()
        invariant
            i <= v@.len(),
            forall|j: int| 0 <= j < i ==> v@[j]@ != s@,
        decreases v@.len() - i,
    {
        if same_text(v[i].as_str(), s) {
            assert(texts(v@)[i as int] == s@);
            return true;
        }
        i += 1;
    }
    false
}

/// The order of texts: by the first character in which they differ, and a
/// text before its continuations.
pub open spec fn text_less(a: Seq<char>, b: Seq<char>) -> bool
    decreases a.len(),
{
    if b.len() == 0 {
        false
    } else if a.len() == 0 {
        true
    } else if a[0] != b[0] {
        (a[0] as int) < (b[0] as int)
    } else {
        text_less(a.drop_first(), b.drop_first())
    }
}

/// The order of texts is transitive.
pub proof fn text_less_transitive(a: Seq<char>, b: Seq<char>, c: Seq<char>)
    requires
        text_less(a, b),
        text_less(b, c),
    ensures
        text_less(a, c),
    decreases a.len(),
{
    if a.len() > 0 && b.len() > 0 && c.len() > 0 && a[0] == b[0] && b[0] == c[0] {
        text_less_transitive(a.drop_first(), b.drop_first(), c.drop_first());
    }
}

/// Of two different texts exactly one comes before the other.
pub proof fn text_less_total(a: Seq<char>, b: Seq<char>)
    ensures
        text_less(a, b) || a == b || text_less(b, a),
        !(text_less(a, b) && text_less(b, a)),
        !text_less(a, a),
    decreases a.len(),
{
    if a.len() > 0 && b.len() > 0 {
        chars_by_code(a[0], b[0]);
        text_less_total(a.drop_first(), b.drop_first());
        if a[0] == b[0] && a.drop_first() == b.drop_first() {
            assert(a =~= seq![a[0]] + a.drop_first());
            assert(b =~= seq![b[0]] + b.drop_first());
        }
    } else if a.len() == 0 && b.len() == 0 {
        assert(a =~= b);
    }
    if a.len() > 0 {
        text_less_total(a.drop_first(), a.drop_first());
    }
}

proof fn chars_by_code(a: char, b: char)
    ensures
        a as int == b as int ==> a == b,
{
}

/// The code point of `c`.
pub fn code_point(c: char) -> (r: u32)
    ensures
        r == c as int,
{
    c as u32
}

/// Whether `a` comes before `b`.
pub fn comes_before(a: &str, b: &str) -> (r: bool)
    ensures
        r == text_less(a@, b@),
{
    let x = to_chars(a);
    let y = to_chars(b);
    let mut i: usize = 0;
    assert(x@.skip(0) =~= x@);
    assert(y@.skip(0) =~= y@);
    while i < x.len() && i < y.len()
        invariant
            x@ == a@,
            y@ == b@,
            i <= x@.len(),
            i <= y@.len(),
            text_less(x@, y@) == text_less(x@.skip(i as int), y@.skip(i as int)),
        decreases x@.len() - i,
    {
        assert(x@.skip(i as int)[0] == x@[i as int]);
        assert(y@.skip(i as int)[0] == y@[i as int]);
        assert(x@.skip(i as int).drop_first() =~= x@.skip(i + 1));
        assert(y@.skip(i as int).drop_first() =~= y@.skip(i + 1));
        if x[i] != y[i] {
            return code_point(x[i]) < code_point(y[i]);
        }
        i += 1;
    }
    i < y.len()
}

/// Whether the texts of `r` increase strictly.
pub open spec fn increasing(r: Seq<Seq<char>>) -> bool {
    forall|i: int, j: int| 0 <= i < j < r.len() ==> text_less(#[trigger] r[i], #[trigger] r[j])
}

/// Whether `r` holds the texts of `s`, each once and in order.
pub open spec fn sorted_set(r: Seq<Seq<char>>, s: Seq<Seq<char>>) -> bool {
    &&& increasing(r)
    &&& forall|x: Seq<char>| #[trigger] r.contains(x) <==> s.contains(x)
}

/// The strings of `v`, each once and in order.
pub fn sort_distinct(v: &[String]) -> (r: Vec<String>)
    ensures
        sorted_set(texts(r@), texts(v@)),
{
    let mut r: Vec<String> = Vec::new();
    let mut i: usize = 0;
    while i < v.len()
        invariant
            i <= v@.len(),
            sorted_set(texts(r@), texts(v@.take(i as int))),
        decreases v@.len() - i,
    {
        let ghost before = texts(r@);
        let ghost seen = texts(v@.take(i as int));
        let ghost now = texts(v@.take(i + 1));
        let ghost x = v@[i as int]@;
        assert(now =~= seen.push(x));
        let mut k: usize = 0;
        while k < r.len() && comes_before(r[k].as_str(), v[i].as_str())
            invariant
                i < v@.len(),
                k <= r@.len(),
                forall|q: int| 0 <= q < k ==> text_less(#[trigger] r@[q]@, v@[i as int]@),
            decreases r@.len() - k,
        {
            k += 1;
        }
        if k < r.len() && same_text(r[k].as_str(), v[i].as_str()) {
            proof {
                assert(before[k as int] == x);
                pushed_known(before, seen, x);
            }
        } else {
            let ghost old_r = r@;
            r.insert(k, v[i].clone());
            proof {
                let after = texts(r@);
                assert(after =~= before.insert(k as int, x));
                if k < before.len() {
                    text_less_total(before[k as int], x);
                    assert(before[k as int] == old_r[k as int]@);
                }
                assert forall|q: int| 0 <= q < k implies text_less(#[trigger] before[q], x) by {
                    assert(before[q] == old_r[q]@);
                }
                inserted_in_order(before, seen, x, k as int);
            }
        }
        i += 1;
    }
    assert(v@.take(v@.len() as int) =~= v@);
    r
}

proof fn pushed_known(r: Seq<Seq<char>>, s: Seq<Seq<char>>, x: Seq<char>)
    requires
        sorted_set(r, s),
        r.contains(x),
    ensures
        sorted_set(r, s.push(x)),
{
    assert forall|y: Seq<char>| #[trigger] r.contains(y) <==> s.push(x).contains(y) by {
        if s.push(x).contains(y) {
            let q = choose|q: int| 0 <= q < s.push(x).len() && s.push(x)[q] == y;
            if q < s.len() {
                assert(s[q] == y);
                assert(s.contains(y));
            }
        }
        if r.contains(y) {
            let q = choose|q: int| 0 <= q < s.len() && s[q] == y;
            assert(s.push(x)[q] == y);
        }
    }
}

proof fn inserted_in_order(r: Seq<Seq<char>>, s: Seq<Seq<char>>, x: Seq<char>, k: int)
    requires
        sorted_set(r, s),
        0 <= k <= r.len(),
        forall|q: int| 0 <= q < k ==> text_less(#[trigger] r[q], x),
        k < r.len() ==> text_less(x, r[k]),
    ensures
        sorted_set(r.insert(k, x), s.push(x)),
{
    let t = r.insert(k, x);
    assert forall|i: int, j: int| 0 <= i < j < t.len() implies text_less(
        #[trigger] t[i],
        #[trigger] t[j],
    ) by {
        if i == k {
            if j - 1 > k {
                text_less_transitive(x, r[k], r[j - 1]);
            }
        }
    }
    assert forall|y: Seq<char>| #[trigger] t.contains(y) <==> s.push(x).contains(y) by {
        if t.contains(y) {
            let q = choose|q: int| 0 <= q < t.len() && t[q] == y;
            if q == k {
                assert(s.push(x)[s.len() as int] == y);
            } else {
                let z = if q < k {
                    q
                } else {
                    q - 1
                };
                assert(r[z] == y);
                assert(r.contains(y));
                let w = choose|w: int| 0 <= w < s.len() && s[w] == y;
                assert(s.push(x)[w] == y);
            }
        }
        if s.push(x).contains(y) {
            let q = choose|q: int| 0 <= q < s.push(x).len() && s.push(x)[q] == y;
            if q < s.len() {
                assert(s[q] == y);
                assert(s.contains(y));
                assert(r.contains(y));
                let z = choose|z: int| 0 <= z < r.len() && r[z] == y;
                if z < k {
                    assert(t[z] == y);
                } else {
                    assert(t[z + 1] == y);
                }
            } else {
                assert(t[k] == y);
            }
        }
    }
}

} // verus!
