//! Ethereum addresses as 20 plain bytes: how they are read from log topics,
//! written as text, and parsed from text.

use vstd::prelude::*;

verus! {

/// The lowercase hexadecimal digit of a value below 16.
pub open spec fn hex_digit(n: int) -> char {
    if n < 10 {
        (48 + n) as char
    } else {
        (87 + n) as char
    }
}

/// The value of a hexadecimal digit of either case, or -1 for any other character.
pub open spec fn hex_value(c: char) -> int {
    if '0' <= c && c <= '9' {
        c as int - 48
    } else if 'a' <= c && c <= 'f' {
        c as int - 87
    } else if 'A' <= c && c <= 'F' {
        c as int - 55
    } else {
        -1
    }
}

/// Two lowercase hexadecimal digits per byte, most significant first.
pub open spec fn hex_text(bytes: Seq<u8>) -> Seq<char> {
    Seq::new(
        2 * bytes.len(),
        |i: int|
            if i % 2 == 0 {
                hex_digit(bytes[i / 2] as int / 16)
            } else {
                hex_digit(bytes[i / 2] as int % 16)
            },
    )
}

/// How an address is written: `0x` and its 40 lowercase hexadecimal digits.
pub open spec fn address_text_of(addr: Seq<u8>) -> Seq<char> {
    seq!['0', 'x'] + hex_text(addr)
}

/// Characters that the hexadecimal reader skips.
pub open spec fn is_hex_space(c: char) -> bool {
    c == ' ' || c == '\r' || c == '\n' || c == '\t'
}

/// The digits that an address text offers: the text after an optional leading
/// `0x`, without the characters that the reader skips.
pub open spec fn address_digits(t: Seq<char>) -> Seq<char> {
    let body = if t.len() >= 2 && t[0] == '0' && t[1] == 'x' {
        t.skip(2)
    } else {
        t
    };
    body.filter(|c: char| !is_hex_space(c))
}

/// The 20 bytes that an address text denotes, when it offers exactly 40
/// hexadecimal digits and nothing else.
pub open spec fn parsed_address(t: Seq<char>) -> Option<Seq<u8>> {
    let d = address_digits(t);
    if d.len() == 40 && forall|i: int| 0 <= i < 40 ==> hex_value(#[trigger] d[i]) >= 0 {
        Some(Seq::new(20, |i: int| (16 * hex_value(d[2 * i]) + hex_value(d[2 * i + 1])) as u8))
    } else {
        None
    }
}

fn hex_char(n: u8) -> (c: char)
    requires
        n < 16,
    ensures
        c == hex_digit(n as int),
{
    if n < 10 {
        (n + 48) as char
    } else {
        (n + 87) as char
    }
}

/// Writes an address as `0x` and 40 lowercase hexadecimal digits, as the
/// address type's `{:?}` formatting does.
pub fn address_text(addr: &[u8; 20]) -> (res: String)
    ensures
        res@ == address_text_of(addr@),
{
    let mut res = String::new();
    res.push('0');
    res.push('x');
    let mut i: usize = 0;
    while i < 20
        invariant
            i <= 20,
            addr@.len() == 20,
            res@ == seq!['0', 'x'] + hex_text(addr@.take(i as int)),
        decreases 20 - i,
    {
        let b = addr[i];
        let hi = hex_char(b / 16);
        let lo = hex_char(b % 16);
        res.push(hi);
        res.push(lo);
        assert(res@ =~= seq!['0', 'x'] + hex_text(addr@.take(i + 1))) by {
            assert(addr@.take(i + 1)[i as int] == b);
            assert forall|j: int| 0 <= j < 2 * i implies hex_text(addr@.take(i + 1))[j]
                == hex_text(addr@.take(i as int))[j] by {
                assert(addr@.take(i + 1)[j / 2] == addr@.take(i as int)[j / 2]);
            }
        }
        i = i + 1;
    }
    assert(addr@.take(20) =~= addr@);
    res
}

/// The address in a 32-byte log topic: its last 20 bytes, as the conversion
/// from a 32-byte hash to an address takes them.
pub fn address_from_word(word: &[u8; 32]) -> (res: [u8; 20])
    ensures
        res@ == word@.skip(12),
{
    let mut res = [0u8; 20];
    let mut i: usize = 0;
    while i < 20
        invariant
            i <= 20,
            word@.len() == 32,
            res@.len() == 20,
            forall|j: int| 0 <= j < i ==> res@[j] == word@[j + 12],
        decreases 20 - i,
    {
        res[i] = word[i + 12];
        i = i + 1;
    }
    assert(res@ =~= word@.skip(12));
    res
}

/// Parses an address text with the address type's `FromStr` of the `ethers`
/// crate (`fixed-hash` over `rustc-hex`): an optional leading `0x` is dropped,
/// spaces, tabs, carriage returns and line feeds are skipped, and exactly 40
/// hexadecimal digits of either case must remain. The contract states that
/// rule, as the source shows it, over `parsed_address`.
#[verifier::external_body]
pub(crate) fn parse_address(text: &str) -> (res: Option<[u8; 20]>)
    ensures
        match res {
            Some(a) => parsed_address(text@) == Some(a@),
            None => parsed_address(text@) is None,
        },
{
    text.parse::<ethers::types::Address>().ok().map(|a| a.0)
}

proof fn lemma_filter_keeps_digits(s: Seq<char>)
    requires
        forall|i: int| 0 <= i < s.len() ==> !is_hex_space(#[trigger] s[i]),
    ensures
        s.filter(|c: char| !is_hex_space(c)) == s,
    decreases s.len(),
{
    reveal(Seq::filter);
    if s.len() > 0 {
        lemma_filter_keeps_digits(s.drop_last());
        assert(s.drop_last().push(s.last()) =~= s);
    }
}

/// A text of `0x` and 40 hexadecimal digits is an address.
pub proof fn lemma_plain_address_text(t: Seq<char>)
    requires
        t.len() == 42,
        t[0] == '0',
        t[1] == 'x',
        forall|i: int| 2 <= i < 42 ==> hex_value(#[trigger] t[i]) >= 0,
    ensures
        parsed_address(t) is Some,
{
    let h = t.skip(2);
    assert forall|i: int| 0 <= i < h.len() implies !is_hex_space(#[trigger] h[i]) && hex_value(h[i]) >= 0 by {
        assert(h[i] == t[i + 2]);
    }
    lemma_filter_keeps_digits(h);
    assert(address_digits(t) == h);
}

proof fn lemma_hex_digit_value(n: int)
    requires
        0 <= n < 16,
    ensures
        hex_value(hex_digit(n)) == n,
        !is_hex_space(hex_digit(n)),
{
}

/// Reading back the text of an address gives the address again.
pub proof fn address_text_round_trip(addr: Seq<u8>)
    requires
        addr.len() == 20,
    ensures
        parsed_address(address_text_of(addr)) == Some(addr),
{
    let t = address_text_of(addr);
    let h = hex_text(addr);
    assert(t.skip(2) =~= h);
    assert forall|i: int| 0 <= i < h.len() implies !is_hex_space(#[trigger] h[i]) && hex_value(h[i]) >= 0 by {
        lemma_hex_digit_value(addr[i / 2] as int / 16);
        lemma_hex_digit_value(addr[i / 2] as int % 16);
    }
    lemma_filter_keeps_digits(h);
    let d = address_digits(t);
    assert(d == h);
    let parsed = Seq::new(20, |i: int| (16 * hex_value(d[2 * i]) + hex_value(d[2 * i + 1])) as u8);
    assert forall|i: int| 0 <= i < 20 implies parsed[i] == addr[i] by {
        let b = addr[i] as int;
        lemma_hex_digit_value(b / 16);
        lemma_hex_digit_value(b % 16);
        assert((2 * i) / 2 == i && (2 * i) % 2 == 0);
        assert((2 * i + 1) / 2 == i && (2 * i + 1) % 2 == 1);
        assert(h[2 * i] == hex_digit(b / 16));
        assert(h[2 * i + 1] == hex_digit(b % 16));
        assert(16 * (b / 16) + b % 16 == b);
    }
    assert(parsed =~= addr);
}

/// The text of an address has 42 characters: `'0'`, `'x'`, then for each byte
/// in order two lowercase hexadecimal digits, the first worth sixteen times its
/// value, whose values add up to the byte.
pub proof fn address_text_layout(addr: Seq<u8>)
    requires
        addr.len() == 20,
    ensures
        address_text_of(addr).len() == 42,
        address_text_of(addr)[0] == '0',
        address_text_of(addr)[1] == 'x',
        forall|i: int|
            #![trigger addr[i]]
            0 <= i < 20 ==> {
                let hi = address_text_of(addr)[2 + 2 * i];
                let lo = address_text_of(addr)[3 + 2 * i];
                &&& ('0' <= hi <= '9' || 'a' <= hi <= 'f')
                &&& ('0' <= lo <= '9' || 'a' <= lo <= 'f')
                &&& 16 * hex_value(hi) + hex_value(lo) == addr[i]
            },
{
    let t = address_text_of(addr);
    let h = hex_text(addr);
    assert forall|i: int| #![trigger addr[i]] 0 <= i < 20 implies {
        let hi = t[2 + 2 * i];
        let lo = t[3 + 2 * i];
        &&& ('0' <= hi <= '9' || 'a' <= hi <= 'f')
        &&& ('0' <= lo <= '9' || 'a' <= lo <= 'f')
        &&& 16 * hex_value(hi) + hex_value(lo) == addr[i]
    } by {
        let b = addr[i] as int;
        lemma_hex_digit_value(b / 16);
        lemma_hex_digit_value(b % 16);
        assert((2 * i) / 2 == i && (2 * i) % 2 == 0);
        assert((2 * i + 1) / 2 == i && (2 * i + 1) % 2 == 1);
        assert(t[2 + 2 * i] == h[2 * i]);
        assert(t[3 + 2 * i] == h[2 * i + 1]);
        assert(16 * (b / 16) + b % 16 == b);
    }
}

/// A text of `0x` and 40 lowercase hexadecimal digits is how the address it
/// denotes is written.
pub proof fn lemma_lowercase_address_text(t: Seq<char>)
    requires
        t.len() == 42,
        t[0] == '0',
        t[1] == 'x',
        forall|i: int| 2 <= i < 42 ==> ('0' <= #[trigger] t[i] <= '9' || 'a' <= t[i] <= 'f'),
    ensures
        parsed_address(t) is Some,
        address_text_of(parsed_address(t)->0) == t,
{
    lemma_plain_address_text(t);
    let h = t.skip(2);
    assert forall|i: int| 0 <= i < h.len() implies !is_hex_space(#[trigger] h[i]) by {
        assert(h[i] == t[i + 2]);
    }
    lemma_filter_keeps_digits(h);
    let d = address_digits(t);
    assert(d == h);
    let a = parsed_address(t)->0;
    let w = address_text_of(a);
    assert forall|k: int| 0 <= k < 42 implies w[k] == t[k] by {
        if k >= 2 {
            let j = k - 2;
            let i = j / 2;
            let c0 = d[2 * i];
            let c1 = d[2 * i + 1];
            assert(c0 == t[2 * i + 2] && c1 == t[2 * i + 3]);
            let v = 16 * hex_value(c0) + hex_value(c1);
            assert(0 <= hex_value(c0) < 16 && 0 <= hex_value(c1) < 16);
            assert(a[i] == v as u8);
            assert(v / 16 == hex_value(c0) && v % 16 == hex_value(c1));
            assert(hex_digit(hex_value(c0)) == c0);
            assert(hex_digit(hex_value(c1)) == c1);
        }
    }
    assert(w =~= t);
}

} // verus!
