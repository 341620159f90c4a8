//! Shortening of decimal texts and grouping of digits by thousands.

use vstd::prelude::*;
use vstd::utf8::{char_is_scalar, encode_scalar, encode_utf8};

verus! {

/// The number of bytes of the UTF-8 encoding of `s`: what `str::len` reports.
pub open spec fn utf8_len(s: Seq<char>) -> nat {
    encode_utf8(s).len()
}

/// Where `prettify_decimal` cuts: the index of the first `'.'`, or 0 when `s` has none.
pub open spec fn dot_index(s: Seq<char>) -> int {
    match s.index_of_first('.') {
        Some(i) => i,
        None => 0,
    }
}

/// A text that `prettify_decimal` hands back unchanged: `"0"`, or one byte long.
pub open spec fn kept_whole(s: Seq<char>) -> bool {
    s == "0"@ || utf8_len(s) == 1
}

/// The text `s` keeps up to two characters after its first `'.'`
/// (the first three characters where there is no `'.'`).
pub open spec fn prettified_decimal(s: Seq<char>) -> Seq<char> {
    if kept_whole(s) {
        s
    } else if dot_index(s) + 3 <= s.len() {
        s.take(dot_index(s) + 3)
    } else {
        s
    }
}

/// The text `s` with a space before each group of three characters counted from
/// the right, except before the first.
pub open spec fn grouped_thousands(s: Seq<char>) -> Seq<char>
    decreases s.len(),
{
    if s.len() <= 3 {
        s
    } else {
        grouped_thousands(s.take(s.len() - 3)) + seq![' '] + s.skip(s.len() - 3)
    }
}

/// Every character takes at least one byte in UTF-8.
pub proof fn lemma_utf8_len_at_least_chars(s: Seq<char>)
    ensures
        utf8_len(s) >= s.len(),
        s.len() > 0 ==> utf8_len(s) >= utf8_len(s.drop_first()) + 1,
    decreases s.len(),
{
    if s.len() > 0 {
        lemma_utf8_len_at_least_chars(s.drop_first());
    }
}

/// A text is one byte long exactly when it is one ASCII character; `"0"` is such a text.
proof fn lemma_one_byte_text(s: Seq<char>)
    ensures
        utf8_len(s) == 1 <==> (s.len() == 1 && (s[0] as u32) <= 0x7f),
        kept_whole(s) <==> utf8_len(s) == 1,
{
    lemma_utf8_len_at_least_chars(s);
    if s.len() >= 2 {
        lemma_utf8_len_at_least_chars(s.drop_first());
    }
    if s.len() == 1 {
        char_is_scalar(s[0]);
        assert(encode_utf8(s.drop_first()) =~= Seq::<u8>::empty());
        assert(encode_utf8(s) =~= encode_scalar(s[0] as u32) + encode_utf8(s.drop_first()));
        assert(encode_utf8(s).len() == encode_scalar(s[0] as u32).len());
    }
    reveal_strlit("0");
    let zero = "0"@;
    assert(zero.drop_first() =~= Seq::<char>::empty());
    assert(encode_utf8(zero.drop_first()) =~= Seq::<u8>::empty());
    assert(utf8_len(zero) == 1);
}

proof fn lemma_dot_index(s: Seq<char>)
    ensures
        0 <= dot_index(s),
        dot_index(s) < s.len() || dot_index(s) == 0,
        s.contains('.') ==> s[dot_index(s)] == '.' && forall|j: int|
            0 <= j < dot_index(s) ==> s[j] != '.',
        !s.contains('.') ==> dot_index(s) == 0,
{
    s.index_of_first_ensures('.');
}

/// Shortens a decimal text to two characters after the first `'.'`; a text
/// without `'.'` is cut to its first three characters, and `"0"` and one-byte
/// texts come back unchanged.
pub fn prettify_decimal(text: String) -> (res: String)
    ensures
        res@ == prettified_decimal(text@),
{
    proof {
        lemma_one_byte_text(text@);
        lemma_dot_index(text@);
    }
    let n = text.as_str().unicode_len();
    if n == 1 && text.as_str().get_char(0) <= '\u{7f}' {
        return text;
    }
    let mut i: usize = 0;
    let mut idx: usize = 0;
    while i < n
        invariant_except_break
            idx == 0,
        invariant
            n == text@.len(),
            i <= n,
            forall|j: int| 0 <= j < i ==> text@[j] != '.',
        ensures
            (i == n && idx == 0) || (i < n && idx == i && text@[i as int] == '.'),
        decreases n - i,
    {
        if text.as_str().get_char(i) == '.' {
            idx = i;
            break;
        }
        i = i + 1;
    }
    proof {
        if text@.contains('.') {
            assert(idx == dot_index(text@)) by {
                if i == n {
                    let k = choose|k: int| 0 <= k < text@.len() && text@[k] == '.';
                    assert(text@[k] == '.');
                }
            }
        } else if i < n {
            assert(text@.contains(text@[i as int]));
        }
    }
    let end = if n - idx <= 3 { n } else { idx + 3 };
    let cut = text.as_str().substring_char(0, end);
    let res = String::from_str(cut);
    proof {
        if end == n {
            assert(text@.subrange(0, n as int) =~= text@);
        }
    }
    res
}

proof fn lemma_grouped_short(s: Seq<char>)
    requires
        s.len() <= 3,
    ensures
        grouped_thousands(s) == s,
{
}

proof fn lemma_grouped_step(s: Seq<char>, i: int)
    requires
        1 <= i,
        i + 3 <= s.len(),
    ensures
        grouped_thousands(s.take(i + 3)) == grouped_thousands(s.take(i)) + seq![' '] + s.subrange(i, i + 3),
{
    let t = s.take(i + 3);
    assert(t.take(t.len() - 3) =~= s.take(i));
    assert(t.skip(t.len() - 3) =~= s.subrange(i, i + 3));
}

/// Groups the characters of a number by three from the right, with a space
/// between groups: `"19123"` becomes `"19 123"`.
pub fn prettify_dollars(text: String) -> (res: String)
    ensures
        res@ == grouped_thousands(text@),
{
    let n = text.as_str().unicode_len();
    let lead: usize = if n % 3 == 0 && n > 0 { 3 } else { n % 3 };
    let mut res = String::from_str(text.as_str().substring_char(0, lead));
    let mut i: usize = lead;
    proof {
        lemma_grouped_short(text@.take(lead as int));
        assert(text@.subrange(0, lead as int) =~= text@.take(lead as int));
    }
    while i < n
        invariant
            n == text@.len(),
            lead <= i <= n,
            (n - i) % 3 == 0,
            n > 0 ==> lead >= 1,
            res@ == grouped_thousands(text@.take(i as int)),
        decreases n - i,
    {
        let group = text.as_str().substring_char(i, i + 3);
        proof {
            lemma_grouped_step(text@, i as int);
        }
        res.push(' ');
        res.append(group);
        assert(res@ =~= grouped_thousands(text@.take(i as int)) + seq![' '] + text@.subrange(i as int, i + 3));
        i = i + 3;
    }
    assert(text@.take(n as int) =~= text@);
    res
}

/// The characters of `s` other than spaces.
pub open spec fn without_spaces(s: Seq<char>) -> Seq<char> {
    s.filter(|c: char| c != ' ')
}

/// `prettify_decimal` only ever cuts: its result is a prefix of its input.
pub proof fn prettify_decimal_is_prefix(s: Seq<char>)
    ensures
        prettified_decimal(s).len() <= s.len(),
        s.take(prettified_decimal(s).len() as int) == prettified_decimal(s),
{
    lemma_dot_index(s);
    assert(s.take(s.len() as int) =~= s);
    let t = prettified_decimal(s);
    assert(s.take(t.len() as int) =~= t);
}

/// Shortening a shortened decimal text changes nothing more.
pub proof fn prettify_decimal_idempotent(s: Seq<char>)
    ensures
        prettified_decimal(prettified_decimal(s)) == prettified_decimal(s),
{
    let t = prettified_decimal(s);
    lemma_dot_index(s);
    lemma_dot_index(t);
    lemma_one_byte_text(s);
    lemma_one_byte_text(t);
    if !kept_whole(s) && dot_index(s) + 3 <= s.len() {
        let d = dot_index(s);
        if s.contains('.') {
            assert(t[d] == '.');
            assert(t.contains('.'));
            assert(dot_index(t) == d) by {
                if dot_index(t) < d {
                    assert(s[dot_index(t)] == t[dot_index(t)]);
                }
            }
        } else {
            assert forall|j: int| 0 <= j < t.len() implies t[j] != '.' by {
                assert(t[j] == s[j]);
                if t[j] == '.' {
                    assert(s.contains(s[j]));
                }
            }
        }
        assert(t.take(dot_index(t) + 3) =~= t);
    }
}

/// Grouping by thousands only inserts spaces: without its spaces, the result is
/// the input without its spaces.
pub proof fn prettify_dollars_keeps_characters(s: Seq<char>)
    ensures
        without_spaces(grouped_thousands(s)) == without_spaces(s),
    decreases s.len(),
{
    if s.len() > 3 {
        let a = s.take(s.len() - 3);
        let b = s.skip(s.len() - 3);
        let p = |c: char| c != ' ';
        prettify_dollars_keeps_characters(a);
        Seq::filter_distributes_over_add(grouped_thousands(a), seq![' '], p);
        Seq::filter_distributes_over_add(grouped_thousands(a) + seq![' '], b, p);
        Seq::filter_distributes_over_add(a, b, p);
        assert(a + b =~= s);
        reveal_with_fuel(Seq::filter, 2);
        assert(seq![' '].filter(p) =~= Seq::<char>::empty());
    }
}

/// A number of `n >= 1` characters gains one space for each full group of
/// three after the first character.
pub proof fn prettify_dollars_length(s: Seq<char>)
    requires
        s.len() >= 1,
    ensures
        grouped_thousands(s).len() == s.len() + (s.len() - 1) / 3,
    decreases s.len(),
{
    if s.len() > 3 {
        prettify_dollars_length(s.take(s.len() - 3));
    }
}

proof fn lemma_not_kept_whole(s: Seq<char>)
    requires
        s.len() >= 2,
    ensures
        !kept_whole(s),
{
    lemma_one_byte_text(s);
    reveal_strlit("0");
    assert(s.len() != "0"@.len());
}

/// A text of at most one character comes back from `prettify_decimal` unchanged.
pub proof fn prettify_decimal_keeps_short_texts(s: Seq<char>)
    requires
        s.len() <= 1,
    ensures
        prettified_decimal(s) == s,
{
    lemma_dot_index(s);
}

/// A text of two or more characters whose first `'.'` is at index `d` is cut
/// to its first `d + 3` characters, or kept whole when it is shorter: at most
/// two characters follow the first `'.'`.
pub proof fn prettify_decimal_cuts_after_first_dot(s: Seq<char>, d: int)
    requires
        s.len() >= 2,
        0 <= d < s.len(),
        s[d] == '.',
        forall|j: int| 0 <= j < d ==> s[j] != '.',
    ensures
        prettified_decimal(s) == s.take(if d + 3 <= s.len() { d + 3 } else { s.len() as int }),
{
    lemma_not_kept_whole(s);
    lemma_dot_index(s);
    assert(s.contains(s[d]));
    assert(dot_index(s) == d) by {
        if dot_index(s) < d {
            assert(s[dot_index(s)] != '.');
        }
    }
    assert(s.take(s.len() as int) =~= s);
}

/// A text of two or more characters without `'.'` is cut to its first three
/// characters, or kept whole when it is shorter.
pub proof fn prettify_decimal_without_dot(s: Seq<char>)
    requires
        s.len() >= 2,
        forall|j: int| 0 <= j < s.len() ==> s[j] != '.',
    ensures
        prettified_decimal(s) == s.take(if 3 <= s.len() { 3 } else { s.len() as int }),
{
    lemma_not_kept_whole(s);
    lemma_dot_index(s);
    if s.contains('.') {
        let k = choose|k: int| 0 <= k < s.len() && s[k] == '.';
        assert(s[k] == '.');
    }
    assert(s.take(s.len() as int) =~= s);
}

/// In the grouping of a text without spaces, counting from the right end, the
/// fourth, eighth, ... characters are spaces and no other character is.
pub proof fn prettify_dollars_space_positions(s: Seq<char>)
    requires
        forall|j: int| 0 <= j < s.len() ==> s[j] != ' ',
    ensures
        forall|k: int|
            0 <= k < grouped_thousands(s).len() ==> (#[trigger] grouped_thousands(s)[k] == ' '
                <==> (grouped_thousands(s).len() - 1 - k) % 4 == 3),
    decreases s.len(),
{
    let r = grouped_thousands(s);
    if s.len() > 3 {
        let a = s.take(s.len() - 3);
        let b = s.skip(s.len() - 3);
        prettify_dollars_space_positions(a);
        let g = grouped_thousands(a);
        assert(r == g + seq![' '] + b);
        assert forall|k: int| 0 <= k < r.len() implies (#[trigger] r[k] == ' ' <==> (r.len() - 1 - k) % 4 == 3) by {
            if k < g.len() {
                assert(r[k] == g[k]);
                assert((r.len() - 1 - k) % 4 == (g.len() - 1 - k) % 4);
            } else if k == g.len() {
                assert(r[k] == ' ');
            } else {
                assert(r[k] == b[k - g.len() - 1]);
                assert(b[k - g.len() - 1] == s[s.len() - 3 + k - g.len() - 1]);
            }
        }
    } else {
        assert forall|k: int| 0 <= k < r.len() implies (#[trigger] r[k] == ' ' <==> (r.len() - 1 - k) % 4 == 3) by {
            assert(r[k] == s[k]);
        }
    }
}

} // verus!
