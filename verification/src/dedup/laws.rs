//! What deduplication keeps: exactly the words that a window repeats are taken
//! away, and every other word stays.

use crate::dedup::text_dedup::{
    agreement, anchor_end, anchor_from, anchored, is_ascii_punct, jaro_winkler_bits,
    longest_anchor, prefix_end, remaining, strip_punct, words_agree,
};
use crate::ieee::at_least;
use crate::text::{join, lowercase, words};
use crate::text_laws::{is_word, joined_words_come_back, words_are_words};
use vstd::prelude::*;

verus! {

/// Whether the last `len` of the words `prev` are, word by word, taken for the
/// same as the words `new` from `pos` on.
pub open spec fn repeats_end(
    prev: Seq<Seq<char>>,
    new: Seq<Seq<char>>,
    len: int,
    pos: int,
) -> bool {
    forall|k: int|
        0 <= k < len ==> words_agree(#[trigger] prev[prev.len() - len + k], new[pos + k])
}

/// Whether the end of the previous window may be looked for at this place: as
/// the start of the new one, or in its first three quarters.
pub open spec fn searched(n: int, len: int, pos: int) -> bool {
    0 <= pos && pos + len <= n && (pos == 0 || pos < n * 3 / 4)
}

/// Whether an end of `len` words, of three to eight, is found at this place.
pub open spec fn found(prev: Seq<Seq<char>>, new: Seq<Seq<char>>, len: int, pos: int) -> bool {
    &&& 3 <= len <= 8
    &&& len <= prev.len()
    &&& searched(new.len() as int, len, pos)
    &&& repeats_end(prev, new, len, pos)
}

/// Whether the new words begin with the last `len` of the previous ones, at
/// most fifty.
pub open spec fn begins_with_end(prev: Seq<Seq<char>>, new: Seq<Seq<char>>, len: int) -> bool {
    &&& 1 <= len <= 50
    &&& len <= prev.len()
    &&& len <= new.len()
    &&& repeats_end(prev, new, len, 0)
}

proof fn table_tells(prev: Seq<Seq<char>>, new: Seq<Seq<char>>, len: int, pos: int)
    requires
        0 <= len <= prev.len(),
        0 <= pos,
        pos + len <= new.len(),
    ensures
        anchored(agreement(prev, new), len, pos) == repeats_end(prev, new, len, pos),
{
    let a = agreement(prev, new);
    if anchored(a, len, pos) {
        assert forall|k: int| 0 <= k < len implies words_agree(
            #[trigger] prev[prev.len() - len + k],
            new[pos + k],
        ) by {
            assert(a[a.len() - len + k][pos + k]);
        }
    }
    if repeats_end(prev, new, len, pos) {
        assert forall|k: int| 0 <= k < len implies #[trigger] a[a.len() - len + k][pos + k] by {
            assert(words_agree(prev[prev.len() - len + k], new[pos + k]));
        }
    }
}

proof fn search_finds(prev: Seq<Seq<char>>, new: Seq<Seq<char>>, len: int, from: int)
    requires
        3 <= len <= 8,
        len <= prev.len(),
        0 <= from,
    ensures
        match anchor_from(agreement(prev, new), new.len() as int, len, from) {
            Some(pos) => from <= pos && found(prev, new, len, pos) && forall|q: int|
                from <= q < pos ==> !(#[trigger] found(prev, new, len, q)),
            None => forall|q: int| from <= q ==> !(#[trigger] found(prev, new, len, q)),
        },
    decreases new.len() - from,
{
    let n = new.len() as int;
    if from + len > n || (from >= n * 3 / 4 && from >= 1) || from >= n {
    } else {
        table_tells(prev, new, len, from);
        if !anchored(agreement(prev, new), len, from) {
            search_finds(prev, new, len, from + 1);
        }
    }
}

proof fn longest_is_found(prev: Seq<Seq<char>>, new: Seq<Seq<char>>, len: int)
    requires
        len <= 8,
        len <= prev.len(),
    ensures
        match anchor_end(agreement(prev, new), new.len() as int, len) {
            Some(end) => exists|l: int, pos: int|
                l <= len && end == pos + l && #[trigger] found(prev, new, l, pos) && (forall|q: int|
                    q < pos ==> !(#[trigger] found(prev, new, l, q))) && forall|m: int, q: int|
                    l < m <= len ==> !(#[trigger] found(prev, new, m, q)),
            None => forall|m: int, q: int| m <= len ==> !(#[trigger] found(prev, new, m, q)),
        },
    decreases len,
{
    if len >= 3 {
        search_finds(prev, new, len, 0);
        longest_is_found(prev, new, len - 1);
        match anchor_from(agreement(prev, new), new.len() as int, len, 0) {
            Some(pos) => {
                assert(found(prev, new, len, pos));
            },
            None => {
                assert forall|q: int| !(#[trigger] found(prev, new, len, q)) by {}
                match anchor_end(agreement(prev, new), new.len() as int, len - 1) {
                    Some(end) => {
                        let (l, pos) = choose|l: int, pos: int|
                            l <= len - 1 && end == pos + l && #[trigger] found(prev, new, l, pos)
                                && (forall|q: int|
                                q < pos ==> !(#[trigger] found(prev, new, l, q))) && forall|
                                m: int,
                                q: int,
                            |
                                l < m <= len - 1 ==> !(#[trigger] found(prev, new, m, q));
                        assert(found(prev, new, l, pos));
                        assert forall|m: int, q: int| l < m <= len implies !(#[trigger] found(
                            prev,
                            new,
                            m,
                            q,
                        )) by {}
                    },
                    None => {},
                }
            },
        }
    }
}

proof fn longest_begins(prev: Seq<Seq<char>>, new: Seq<Seq<char>>, len: int)
    requires
        len <= 50,
        len <= prev.len(),
        len <= new.len(),
    ensures
        match prefix_end(agreement(prev, new), len) {
            Some(k) => k <= len && begins_with_end(prev, new, k) && forall|m: int|
                k < m <= len ==> !(#[trigger] begins_with_end(prev, new, m)),
            None => forall|m: int| m <= len ==> !(#[trigger] begins_with_end(prev, new, m)),
        },
    decreases len,
{
    if len >= 1 {
        table_tells(prev, new, len, 0);
        longest_begins(prev, new, len - 1);
    }
}

proof fn rest_has_these_words(new: Seq<char>, k: int)
    requires
        0 <= k <= words(new).len(),
    ensures
        words(join(words(new).skip(k), " "@)) == words(new).skip(k),
{
    words_are_words(new);
    let rest = words(new).skip(k);
    assert forall|i: int| 0 <= i < rest.len() implies is_word(#[trigger] rest[i]) by {
        assert(rest[i] == words(new)[k + i]);
    }
    joined_words_come_back(rest);
}

/// Where the end of the previous window is found in the new one, exactly the
/// words behind it are left. Of the ends that are found the longest counts,
/// and of its places the first.
pub proof fn found_end_is_removed(prev: Seq<char>, new: Seq<char>, len: int, pos: int)
    requires
        found(words(prev), words(new), len, pos),
        forall|q: int| q < pos ==> !(#[trigger] found(words(prev), words(new), len, q)),
        forall|m: int, q: int| m > len ==> !(#[trigger] found(words(prev), words(new), m, q)),
    ensures
        remaining(prev, new) == join(words(new).skip(pos + len), " "@),
        words(remaining(prev, new)) == words(new).skip(pos + len),
{
    let p = words(prev);
    let n = words(new);
    let most = longest_anchor(p.len() as int);
    longest_is_found(p, n, most);
    match anchor_end(agreement(p, n), n.len() as int, most) {
        Some(end) => {
            let (l, at) = choose|l: int, at: int|
                l <= most && end == at + l && #[trigger] found(p, n, l, at) && (forall|q: int|
                    q < at ==> !(#[trigger] found(p, n, l, q))) && forall|m: int, q: int|
                    l < m <= most ==> !(#[trigger] found(p, n, m, q));
            assert(found(p, n, len, pos));
            assert(l == len);
            assert(at == pos);
        },
        None => {
            assert(found(p, n, len, pos));
        },
    }
    rest_has_these_words(new, pos + len);
}

/// Where no such end is found, and the new window begins with the last `k`
/// words of the previous one, `k` being the greatest such number, exactly the
/// new words from `k` on are left.
pub proof fn repeated_beginning_is_removed(prev: Seq<char>, new: Seq<char>, k: int)
    requires
        forall|len: int, pos: int| !(#[trigger] found(words(prev), words(new), len, pos)),
        begins_with_end(words(prev), words(new), k),
        forall|m: int| m > k ==> !(#[trigger] begins_with_end(words(prev), words(new), m)),
    ensures
        remaining(prev, new) == join(words(new).skip(k), " "@),
        words(remaining(prev, new)) == words(new).skip(k),
{
    let p = words(prev);
    let n = words(new);
    longest_is_found(p, n, longest_anchor(p.len() as int));
    let aligned = if p.len() < n.len() {
        p.len() as int
    } else {
        n.len() as int
    };
    let most = if aligned < 50 {
        aligned
    } else {
        50
    };
    longest_begins(p, n, most);
    assert(begins_with_end(p, n, k));
    rest_has_these_words(new, k);
}

/// Where the new window neither holds the end of the previous one nor begins
/// with it, it is all new, to the letter.
pub proof fn nothing_else_is_removed(prev: Seq<char>, new: Seq<char>)
    requires
        forall|len: int, pos: int| !(#[trigger] found(words(prev), words(new), len, pos)),
        forall|m: int| !(#[trigger] begins_with_end(words(prev), words(new), m)),
    ensures
        remaining(prev, new) == new,
{
    let p = words(prev);
    let n = words(new);
    if p.len() > 0 && n.len() > 0 {
        longest_is_found(p, n, longest_anchor(p.len() as int));
        let aligned = if p.len() < n.len() {
            p.len() as int
        } else {
            n.len() as int
        };
        let most = if aligned < 50 {
            aligned
        } else {
            50
        };
        longest_begins(p, n, most);
    }
}

/// Punctuation is what is printable in ASCII and neither a letter, a digit nor
/// the space.
pub proof fn punctuation_is_the_rest_of_ascii(c: char)
    ensures
        is_ascii_punct(c) <==> 0x21 <= c as u32 <= 0x7e && !('0' <= c <= '9') && !('a' <= c <= 'z')
            && !('A' <= c <= 'Z'),
{
}

/// Stripping takes punctuation from the end, all of it, and nothing else.
pub proof fn stripping_takes_only_punctuation(s: Seq<char>)
    ensures
        strip_punct(s).len() <= s.len(),
        strip_punct(s) == s.take(strip_punct(s).len() as int),
        forall|i: int| strip_punct(s).len() <= i < s.len() ==> is_ascii_punct(#[trigger] s[i]),
        strip_punct(s).len() > 0 ==> !is_ascii_punct(strip_punct(s).last()),
    decreases s.len(),
{
    if s.len() > 0 && is_ascii_punct(s.last()) {
        let front = s.drop_last();
        stripping_takes_only_punctuation(front);
        let n = strip_punct(s).len() as int;
        assert(front.take(n) =~= s.take(n));
        assert forall|i: int| n <= i < s.len() implies is_ascii_punct(#[trigger] s[i]) by {
            if i < front.len() {
                assert(s[i] == front[i]);
            }
        }
    } else {
        assert(s.take(s.len() as int) =~= s);
    }
}

proof fn punctuation_is_stripped(s: Seq<char>, p: Seq<char>)
    requires
        forall|i: int| 0 <= i < p.len() ==> is_ascii_punct(#[trigger] p[i]),
    ensures
        strip_punct(s + p) == strip_punct(s),
    decreases p.len(),
{
    if p.len() > 0 {
        assert((s + p).last() == p[p.len() - 1]);
        assert((s + p).drop_last() =~= s + p.drop_last());
        assert forall|i: int| 0 <= i < p.drop_last().len() implies is_ascii_punct(
            #[trigger] p.drop_last()[i],
        ) by {
            assert(p.drop_last()[i] == p[i]);
        }
        punctuation_is_stripped(s, p.drop_last());
    } else {
        assert(s + p =~= s);
    }
}

/// Neither case nor punctuation at the end makes two words different.
pub proof fn case_and_punctuation_do_not_count(
    a: Seq<char>,
    b: Seq<char>,
    p: Seq<char>,
    q: Seq<char>,
)
    requires
        lowercase(a).len() >= p.len(),
        forall|i: int| 0 <= i < p.len() ==> is_ascii_punct(#[trigger] p[i]),
        forall|i: int| 0 <= i < q.len() ==> is_ascii_punct(#[trigger] q[i]),
        exists|s: Seq<char>| lowercase(a) == #[trigger] (s + p) && lowercase(b) == s + q,
    ensures
        words_agree(a, b),
{
    let s = choose|s: Seq<char>| lowercase(a) == #[trigger] (s + p) && lowercase(b) == s + q;
    punctuation_is_stripped(s, p);
    punctuation_is_stripped(s, q);
}

/// Words that differ in more than that agree exactly where their similarity is
/// no number below 0.85.
pub proof fn other_words_agree_by_similarity(a: Seq<char>, b: Seq<char>)
    requires
        strip_punct(lowercase(a)) != strip_punct(lowercase(b)),
    ensures
        words_agree(a, b) <==> at_least(
            jaro_winkler_bits(strip_punct(lowercase(a)), strip_punct(lowercase(b))),
            0x3feb_3333_3333_3333,
        ),
{
}

} // verus!
