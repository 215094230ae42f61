//! What the functions on texts keep: words, parts and numbers are exactly what
//! stands in a text, and come back from it.

use crate::text::{
    all_digits, decimal, digit, digits_value, ends_with, has_text, is_white, join, sorted_set,
    split_appends, split_on, split_on_nonempty, starts_with, text_less, text_less_total, trim,
    trim_end_prefix, trim_start, trim_start_suffix, unsigned_value, word_len, word_len_bound,
    words,
};
use vstd::prelude::*;

verus! {

/// Of the ASCII characters only the space and the five control characters from
/// tab to carriage return are white space.
pub proof fn ascii_white_space(c: char)
    requires
        (c as u32) < 128,
    ensures
        is_white(c) <==> c == ' ' || 9 <= c as u32 <= 13,
{
}

/// Trimming takes nothing but white space, from the ends alone, and leaves
/// none there.
pub proof fn trimming_takes_only_white_space(s: Seq<char>)
    ensures
        exists|a: int, b: int|
            0 <= a <= b <= s.len() && trim(s) == #[trigger] s.subrange(a, b) && (forall|i: int|
                0 <= i < a ==> is_white(#[trigger] s[i])) && (forall|i: int|
                b <= i < s.len() ==> is_white(#[trigger] s[i])),
        trim(s).len() > 0 ==> !is_white(trim(s)[0]) && !is_white(trim(s).last()),
{
    let a = trim_start_suffix(s);
    let t = trim_start(s);
    let n = trim_end_prefix(t);
    assert(trim(s) =~= s.subrange(a, a + n));
    if trim(s).len() > 0 {
        assert(trim(s)[0] == t[0]);
    }
    assert forall|i: int| a + n <= i < s.len() implies is_white(#[trigger] s[i]) by {
        assert(t[i - a] == s[i]);
    }
    assert(trim(s) == s.subrange(a, a + n));
}

/// Whether a text is a word: not empty, and without white space.
pub open spec fn is_word(s: Seq<char>) -> bool {
    s.len() > 0 && forall|i: int| 0 <= i < s.len() ==> !is_white(#[trigger] s[i])
}

proof fn word_len_of_word(s: Seq<char>, rest: Seq<char>)
    requires
        forall|i: int| 0 <= i < s.len() ==> !is_white(#[trigger] s[i]),
        rest.len() > 0 ==> is_white(rest[0]),
    ensures
        word_len(s + rest) == s.len(),
    decreases s.len(),
{
    if s.len() > 0 {
        assert((s + rest)[0] == s[0]);
        assert((s + rest).drop_first() =~= s.drop_first() + rest);
        assert forall|i: int| 0 <= i < s.drop_first().len() implies !is_white(
            #[trigger] s.drop_first()[i],
        ) by {
            assert(s.drop_first()[i] == s[i + 1]);
        }
        word_len_of_word(s.drop_first(), rest);
    } else {
        assert(s + rest =~= rest);
    }
}

/// A word is its own only word.
pub proof fn word_is_its_only_word(s: Seq<char>)
    requires
        is_word(s),
    ensures
        words(s) == seq![s],
{
    let rest = Seq::<char>::empty();
    word_len_of_word(s, rest);
    assert(s + rest =~= s);
    assert(s.take(s.len() as int) =~= s);
    assert(s.skip(s.len() as int) =~= rest);
    assert(words(rest) =~= Seq::<Seq<char>>::empty());
    assert(!is_white(s[0]));
    assert(words(s) =~= seq![s]);
}

proof fn word_len_before_white(a: Seq<char>, w: char, b: Seq<char>)
    requires
        is_white(w),
    ensures
        word_len(a + seq![w] + b) == word_len(a),
    decreases a.len(),
{
    let s = a + seq![w] + b;
    if a.len() > 0 {
        assert(s[0] == a[0]);
        assert(s.drop_first() =~= a.drop_first() + seq![w] + b);
        word_len_before_white(a.drop_first(), w, b);
    } else {
        assert(s[0] == w);
    }
}

/// White space parts words, and does nothing else: the words of two texts with
/// white space between them are the words of the one and then of the other.
pub proof fn white_space_parts_words(a: Seq<char>, w: char, b: Seq<char>)
    requires
        is_white(w),
    ensures
        words(a + seq![w] + b) == words(a) + words(b),
    decreases a.len(),
{
    let s = a + seq![w] + b;
    if a.len() == 0 {
        assert(s[0] == w);
        assert(s.drop_first() =~= b);
        assert(words(a) + words(b) =~= words(b));
    } else if is_white(a[0]) {
        assert(s[0] == a[0]);
        assert(s.drop_first() =~= a.drop_first() + seq![w] + b);
        white_space_parts_words(a.drop_first(), w, b);
    } else {
        assert(s[0] == a[0]);
        word_len_bound(a);
        word_len_before_white(a, w, b);
        let n = word_len(a) as int;
        assert(s.take(n) =~= a.take(n));
        assert(s.skip(n) =~= a.skip(n) + seq![w] + b);
        white_space_parts_words(a.skip(n), w, b);
        assert(words(s) =~= words(a) + words(b));
    }
}

/// Words that are joined by spaces are the words of the line.
pub proof fn joined_words_come_back(ws: Seq<Seq<char>>)
    requires
        forall|i: int| 0 <= i < ws.len() ==> is_word(#[trigger] ws[i]),
    ensures
        words(join(ws, " "@)) == ws,
    decreases ws.len(),
{
    reveal_strlit(" ");
    if ws.len() == 0 {
        assert(words(join(ws, " "@)) =~= ws);
    } else if ws.len() == 1 {
        word_is_its_only_word(ws[0]);
        assert(words(join(ws, " "@)) =~= ws);
    } else {
        let front = ws.drop_last();
        assert forall|i: int| 0 <= i < front.len() implies is_word(#[trigger] front[i]) by {
            assert(front[i] == ws[i]);
        }
        joined_words_come_back(front);
        assert(is_word(ws[ws.len() - 1]));
        word_is_its_only_word(ws.last());
        assert(" "@ =~= seq![' ']);
        white_space_parts_words(join(front, " "@), ' ', ws.last());
        assert(words(join(ws, " "@)) =~= ws);
    }
}

/// Every word is one: not empty, and without white space.
pub proof fn words_are_words(s: Seq<char>)
    ensures
        forall|i: int| 0 <= i < words(s).len() ==> is_word(#[trigger] words(s)[i]),
    decreases s.len(),
{
    if s.len() == 0 {
        assert(words(s).len() == 0);
    } else {
        if is_white(s[0]) {
            words_are_words(s.drop_first());
            assert(words(s) == words(s.drop_first()));
        } else {
            word_len_bound(s);
            let n = word_len(s) as int;
            words_are_words(s.skip(n));
            leading_word(s);
            assert(is_word(s.take(n)));
            let rest = words(s.skip(n));
            assert(words(s) == seq![s.take(n)] + rest);
            assert forall|i: int| 0 <= i < words(s).len() implies is_word(
                #[trigger] words(s)[i],
            ) by {
                if i > 0 {
                    assert(words(s)[i] == rest[i - 1]);
                } else {
                    assert(words(s)[0] == s.take(n));
                }
            }
        }
    }
}

proof fn leading_word(s: Seq<char>)
    ensures
        word_len(s) <= s.len(),
        forall|i: int| 0 <= i < word_len(s) ==> !is_white(#[trigger] s[i]),
    decreases s.len(),
{
    if s.len() > 0 && !is_white(s[0]) {
        leading_word(s.drop_first());
        assert forall|i: int| 0 <= i < word_len(s) implies !is_white(#[trigger] s[i]) by {
            if i > 0 {
                assert(s[i] == s.drop_first()[i - 1]);
            }
        }
    }
}

/// Joining one list and then another is joining them together, with the
/// separator between the two.
pub proof fn joins_follow_each_other(a: Seq<Seq<char>>, b: Seq<Seq<char>>, sep: Seq<char>)
    requires
        a.len() > 0,
        b.len() > 0,
    ensures
        join(a + b, sep) == join(a, sep) + sep + join(b, sep),
        join(seq![a[0]], sep) == a[0],
    decreases b.len(),
{
    if b.len() == 1 {
        assert((a + b).drop_last() =~= a);
        assert((a + b).last() == b[0]);
    } else {
        joins_follow_each_other(a, b.drop_last(), sep);
        assert((a + b).drop_last() =~= a + b.drop_last());
        assert((a + b).last() == b.last());
        assert(join(a + b, sep) =~= join(a, sep) + sep + join(b, sep));
    }
}

/// The parts of a text between separators hold no separator, and with the
/// separator between them they are the text again.
pub proof fn parts_make_up_the_text(s: Seq<char>, sep: char)
    ensures
        split_on(s, sep).len() > 0,
        join(split_on(s, sep), seq![sep]) == s,
        forall|i: int|
            0 <= i < split_on(s, sep).len() ==> !(#[trigger] split_on(s, sep)[i]).contains(sep),
    decreases s.len(),
{
    let parts = split_on(s, sep);
    split_on_nonempty(s, sep);
    if s.len() == 0 {
        assert(join(parts, seq![sep]) =~= s);
    } else {
        let front = s.drop_last();
        let head = split_on(front, sep);
        parts_make_up_the_text(front, sep);
        if s.last() == sep {
            assert(parts.drop_last() =~= head);
            assert(parts.last() =~= Seq::<char>::empty());
            assert(join(parts, seq![sep]) == join(head, seq![sep]) + seq![sep] + parts.last());
            assert(join(head, seq![sep]) == front);
            assert(front + seq![sep] + parts.last() =~= front + seq![sep]);
            assert(s =~= front + seq![sep]);
        } else {
            let kept = head.drop_last();
            assert(parts.drop_last() =~= kept);
            assert(parts.last() == head.last().push(s.last()));
            if kept.len() == 0 {
                assert(join(head, seq![sep]) == head[0]);
                assert(join(parts, seq![sep]) == parts[0]);
            } else {
                let j = join(kept, seq![sep]);
                assert(join(head, seq![sep]) == j + seq![sep] + head.last());
                assert(join(parts, seq![sep]) == j + seq![sep] + parts.last());
                assert(j + seq![sep] + head.last().push(s.last()) =~= front.push(s.last()));
            }
            assert(s =~= front.push(s.last()));
        }
        assert forall|i: int| 0 <= i < parts.len() implies !(#[trigger] parts[i]).contains(sep) by {
            if s.last() == sep {
                if i < head.len() {
                    assert(parts[i] == head[i]);
                }
            } else if i < head.len() - 1 {
                assert(parts[i] == head[i]);
            } else {
                assert(!head[head.len() - 1].contains(sep));
                if parts[i].contains(sep) {
                    let q = choose|q: int| 0 <= q < parts[i].len() && parts[i][q] == sep;
                    assert(head.last()[q] == sep);
                }
            }
        }
    }
}

/// A number in decimal has digits only, no zero before another digit, and is
/// read as the number.
pub proof fn decimal_reads_back(n: nat)
    ensures
        all_digits(decimal(n)),
        digits_value(decimal(n)) == n,
        decimal(n).len() > 1 ==> decimal(n)[0] != '0',
        unsigned_value(decimal(n)) == Some(n),
        n > 0 ==> decimal(n)[0] != '0',
    decreases n,
{
    let s = decimal(n);
    if n < 10 {
        reveal_with_fuel(digits_value, 2);
        assert(s.drop_last() =~= Seq::<char>::empty());
        assert(digit(n) as int == '0' as int + n);
        assert(s.last() == digit(n));
        assert('0' <= digit(n) <= '9');
    } else {
        decimal_reads_back(n / 10);
        let front = decimal(n / 10);
        assert(s.drop_last() =~= front);
        assert(s[0] == front[0]);
        assert('0' <= digit(n % 10) <= '9');
        assert(digit(n % 10) as int == '0' as int + n % 10);
        assert(s.last() == digit(n % 10));
        assert(n == 10 * (n / 10) + n % 10);
    }
}

/// A text starts with another where something follows that other.
pub proof fn starting_with_is_being_followed(s: Seq<char>, p: Seq<char>, rest: Seq<char>)
    ensures
        starts_with(p + rest, p),
        ends_with(rest + p, p),
        has_text(rest + p + s, p),
        starts_with(s, p) ==> s == p + s.skip(p.len() as int),
        ends_with(s, p) ==> s == s.take(s.len() - p.len()) + p,
{
    assert((p + rest).take(p.len() as int) =~= p);
    assert((rest + p).skip((rest + p).len() - p.len()) =~= p);
    let whole = rest + p + s;
    assert(whole.subrange(rest.len() as int, (rest.len() + p.len()) as int) =~= p);
    if starts_with(s, p) {
        assert(s =~= p + s.skip(p.len() as int));
    }
    if ends_with(s, p) {
        assert(s =~= s.take(s.len() - p.len()) + p);
    }
}

/// A text that occurs in another stands between two stretches of it.
pub proof fn occurring_is_standing_between(s: Seq<char>, p: Seq<char>)
    requires
        has_text(s, p),
    ensures
        exists|i: int|
            0 <= i <= s.len() - p.len() && s == #[trigger] s.take(i) + p + s.skip(i + p.len()),
{
    let i = choose|i: int|
        0 <= i <= s.len() - p.len() && #[trigger] s.subrange(i, i + p.len()) == p;
    assert(s =~= s.take(i) + p + s.skip(i + p.len()));
}

/// Whether a text is white space throughout.
pub open spec fn all_white(s: Seq<char>) -> bool {
    forall|i: int| 0 <= i < s.len() ==> is_white(#[trigger] s[i])
}

/// A text that neither begins nor ends with white space is all that is left
/// once the white space round it is trimmed off.
pub proof fn trimming_gives_what_stands_between(before: Seq<char>, s: Seq<char>, after: Seq<char>)
    requires
        all_white(before),
        all_white(after),
        s.len() > 0 ==> !is_white(s[0]) && !is_white(s.last()),
    ensures
        trim(before + s + after) == s,
{
    let whole = before + s + after;
    let n = before.len() as int;
    let m = s.len() as int;
    trimming_takes_only_white_space(whole);
    let (a, b) = choose|a: int, b: int|
        0 <= a <= b <= whole.len() && trim(whole) == #[trigger] whole.subrange(a, b) && (forall|
            i: int,
        |
            0 <= i < a ==> is_white(#[trigger] whole[i])) && (forall|i: int|
            b <= i < whole.len() ==> is_white(#[trigger] whole[i]));
    let t = trim(whole);
    assert forall|i: int| 0 <= i < n implies is_white(#[trigger] whole[i]) by {
        assert(whole[i] == before[i]);
    }
    assert forall|i: int| n + m <= i < whole.len() implies is_white(#[trigger] whole[i]) by {
        assert(whole[i] == after[i - n - m]);
    }
    if t.len() > 0 {
        assert(t[0] == whole[a]);
        assert(t.last() == whole[b - 1]);
    }
    if m > 0 {
        assert(whole[n] == s[0]);
        assert(whole[n + m - 1] == s.last());
        assert(a == n && b == n + m);
    } else {
        assert(t.len() == 0);
    }
    assert(t =~= s);
}

/// Where two texts first differ, their characters there decide which comes
/// first; where one ends, it comes before its continuations.
pub proof fn first_difference_decides(p: Seq<char>, c: char, d: char, a: Seq<char>, b: Seq<char>)
    ensures
        c as int != d as int ==> (text_less(p + seq![c] + a, p + seq![d] + b) <==> (c as int) < (
        d as int)),
        text_less(p, p + seq![c] + a),
        !text_less(p + seq![c] + a, p),
    decreases p.len(),
{
    let x = p + seq![c] + a;
    let y = p + seq![d] + b;
    if p.len() == 0 {
        assert(x[0] == c && y[0] == d);
    } else {
        first_difference_decides(p.drop_first(), c, d, a, b);
        assert(x.drop_first() =~= p.drop_first() + seq![c] + a);
        assert(y.drop_first() =~= p.drop_first() + seq![d] + b);
        assert(x[0] == p[0] && y[0] == p[0]);
    }
}

/// A sorted list of texts names each of them, no other, and none twice.
pub proof fn sorted_texts_are_the_texts(r: Seq<Seq<char>>, s: Seq<Seq<char>>, x: Seq<char>)
    requires
        sorted_set(r, s),
    ensures
        s.contains(x) <==> exists|i: int| 0 <= i < r.len() && #[trigger] r[i] == x,
        forall|i: int, j: int|
            0 <= i < r.len() && 0 <= j < r.len() && #[trigger] r[i] == #[trigger] r[j] ==> i == j,
        forall|i: int, j: int|
            0 <= i < j < r.len() ==> text_less(#[trigger] r[i], #[trigger] r[j]),
{
    assert(r.contains(x) <==> s.contains(x));
    assert forall|i: int, j: int|
        0 <= i < r.len() && 0 <= j < r.len() && #[trigger] r[i] == #[trigger] r[j] implies i
        == j by {
        text_less_total(r[i], r[j]);
    }
}

/// A separator ends one part and begins the next, and nothing else parts a
/// text.
pub proof fn separators_part_the_text(a: Seq<char>, b: Seq<char>, sep: char)
    ensures
        split_on(a + seq![sep] + b, sep) == split_on(a, sep) + split_on(b, sep),
        !a.contains(sep) ==> split_on(a, sep) == seq![a],
    decreases b.len(),
{
    let s = a + seq![sep] + b;
    if b.len() == 0 {
        assert(s =~= a.push(sep));
        assert(s.drop_last() =~= a);
        assert(split_on(b, sep) =~= seq![Seq::<char>::empty()]);
        assert(split_on(s, sep) =~= split_on(a, sep) + split_on(b, sep));
    } else {
        let front = b.drop_last();
        separators_part_the_text(a, front, sep);
        assert(s.drop_last() =~= a + seq![sep] + front);
        assert(s.last() == b.last());
        split_on_nonempty(front, sep);
        let x = split_on(a, sep);
        let y = split_on(front, sep);
        assert((x + y).last() == y.last());
        assert((x + y).drop_last() =~= x + y.drop_last());
        assert(split_on(s, sep) =~= x + split_on(b, sep));
    }
    if !a.contains(sep) {
        let none = Seq::<char>::empty();
        split_appends(none, a, sep);
        assert(none + a =~= a);
        assert(split_on(none, sep) =~= seq![none]);
        assert(split_on(a, sep) =~= seq![a]);
    }
}

/// A number may have one plus sign before it; a text with anything else than
/// digits in it is none, and neither is the empty text.
pub proof fn only_digits_are_numbers(s: Seq<char>, i: int)
    ensures
        unsigned_value(Seq::<char>::empty()) is None,
        s.len() > 0 && s[0] != '+' ==> unsigned_value(seq!['+'] + s) == unsigned_value(s),
        0 < i < s.len() && !('0' <= s[i] <= '9') ==> unsigned_value(s) is None,
        s.len() > 0 && s[0] != '+' && !('0' <= s[0] <= '9') ==> unsigned_value(s) is None,
        s.len() == 1 && s[0] == '+' ==> unsigned_value(s) is None,
{
    let plus = seq!['+'] + s;
    assert(plus.drop_first() =~= s);
    if 0 < i < s.len() && !('0' <= s[i] <= '9') && s[0] == '+' {
        assert(s.drop_first()[i - 1] == s[i]);
    }
}

/// Each further digit makes ten times the number, and adds itself.
pub proof fn digits_count_by_tens(s: Seq<char>, d: nat)
    requires
        all_digits(s),
        d < 10,
    ensures
        unsigned_value(s.push(digit(d))) == Some((10 * unsigned_value(s)->0 + d) as nat),
        unsigned_value(seq![digit(d)]) == Some(d),
{
    assert(digit(d) as int == '0' as int + d);
    let t = s.push(digit(d));
    assert(t.drop_last() =~= s);
    assert forall|i: int| 0 <= i < t.len() implies '0' <= #[trigger] t[i] <= '9' by {
        if i < s.len() {
            assert(t[i] == s[i]);
        }
    }
    assert(t[0] == s[0]);
    reveal_with_fuel(digits_value, 2);
    let one = seq![digit(d)];
    assert(one.drop_last() =~= Seq::<char>::empty());
    assert(one.last() == digit(d));
}

/// The characters that are white space, by their codes.
pub proof fn white_space_of_all_scripts(c: char)
    ensures
        is_white(c) <==> seq![
            0x9u32,
            0xa,
            0xb,
            0xc,
            0xd,
            0x20,
            0x85,
            0xa0,
            0x1680,
            0x2000,
            0x2001,
            0x2002,
            0x2003,
            0x2004,
            0x2005,
            0x2006,
            0x2007,
            0x2008,
            0x2009,
            0x200a,
            0x2028,
            0x2029,
            0x202f,
            0x205f,
            0x3000,
        ].contains(c as u32),
{
    let all = seq![
        0x9u32,
        0xa,
        0xb,
        0xc,
        0xd,
        0x20,
        0x85,
        0xa0,
        0x1680,
        0x2000,
        0x2001,
        0x2002,
        0x2003,
        0x2004,
        0x2005,
        0x2006,
        0x2007,
        0x2008,
        0x2009,
        0x200a,
        0x2028,
        0x2029,
        0x202f,
        0x205f,
        0x3000,
    ];
    let u = c as u32;
    if is_white(c) {
        let i: int = if u <= 0xd {
            u - 9
        } else if u == 0x20 {
            5
        } else if u == 0x85 {
            6
        } else if u == 0xa0 {
            7
        } else if u == 0x1680 {
            8
        } else if u <= 0x200a {
            9 + u - 0x2000
        } else if u == 0x2028 {
            20
        } else if u == 0x2029 {
            21
        } else if u == 0x202f {
            22
        } else if u == 0x205f {
            23
        } else {
            24
        };
        assert(all[i] == u);
    }
}

} // verus!
