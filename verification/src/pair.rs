//! The `PairCreated` logs of the Uniswap V2 factory: which pairs are worth a
//! notification, and how much ether they pool.

use vstd::prelude::*;
use crate::address::{
    address_from_word, address_text_of, lemma_lowercase_address_text, lemma_plain_address_text,
    parse_address, parsed_address,
};
use crate::prettify::{prettified_decimal, dot_index, kept_whole, lemma_utf8_len_at_least_chars};

verus! {

/// The Uniswap V2 factory, whose `PairCreated` events are watched.
pub const UNISWAP_FACTORY: &'static str = "0x5C69bEe701ef814a2B6a3EDD4B1652CB9cc5aA6f";

/// Wrapped ether: the token that a pair must hold for a notification.
pub const WETH_ADDRESS: &'static str = "0xc02aaa39b223fe8d0a0e5c4f27ead9083c756cc2";

/// One ether in wei: the least WETH reserve that is reported.
pub const ONE_ETHER: u128 = 1000000000000000000;

/// The WETH address, read from `WETH_ADDRESS`.
pub fn weth_address() -> (res: [u8; 20])
    ensures
        parsed_address(WETH_ADDRESS@) == Some(res@),
{
    proof {
        reveal_strlit("0xc02aaa39b223fe8d0a0e5c4f27ead9083c756cc2");
        lemma_plain_address_text(WETH_ADDRESS@);
    }
    match parse_address(WETH_ADDRESS) {
        Some(a) => a,
        None => {
            proof {
                assert(false);
            }
            [0u8; 20]
        },
    }
}

/// The factory address, read from `UNISWAP_FACTORY`.
pub fn factory_address() -> (res: [u8; 20])
    ensures
        parsed_address(UNISWAP_FACTORY@) == Some(res@),
{
    proof {
        reveal_strlit("0x5C69bEe701ef814a2B6a3EDD4B1652CB9cc5aA6f");
        lemma_plain_address_text(UNISWAP_FACTORY@);
    }
    match parse_address(UNISWAP_FACTORY) {
        Some(a) => a,
        None => {
            proof {
                assert(false);
            }
            [0u8; 20]
        },
    }
}

/// The character of a decimal digit.
pub open spec fn digit_char(d: int) -> char {
    (48 + d) as char
}

/// The decimal digits of `n`, without leading zeros (`"0"` for zero).
pub open spec fn decimal_text(n: nat) -> Seq<char>
    decreases n,
{
    if n < 10 {
        seq![digit_char(n as int)]
    } else {
        decimal_text(n / 10).push(digit_char((n % 10) as int))
    }
}

/// `digits` with zeros in front, up to `width` characters.
pub open spec fn zero_padded(digits: Seq<char>, width: nat) -> Seq<char> {
    if digits.len() < width {
        Seq::new((width - digits.len()) as nat, |i: int| '0') + digits
    } else {
        digits
    }
}

/// An amount of wei written in ether: the whole ethers, a `'.'`, and the
/// remainder as 18 digits.
pub open spec fn ether_text(wei: nat) -> Seq<char> {
    decimal_text(wei / (ONE_ETHER as nat)) + seq!['.'] + zero_padded(
        decimal_text(wei % (ONE_ETHER as nat)),
        18,
    )
}

/// Writes an amount of wei in ether with `ethers::utils::format_units(_, "ether")`.
/// Its source divides by 10^18 and writes `"{integer}.{decimals:0>18}"`, the
/// remainder padded with zeros to 18 digits; with the unit `"ether"` it never
/// fails. The contract states that text over `ether_text`.
#[verifier::external_body]
fn format_ether_units(wei: u128) -> (res: String)
    ensures
        res@ == ether_text(wei as nat),
{
    ethers::utils::format_units(ethers::types::U256::from(wei), "ether").unwrap()
}

/// The three addresses of a `PairCreated` event.
pub struct PairCreated {
    pub token0: [u8; 20],
    pub token1: [u8; 20],
    pub pair: [u8; 20],
}

/// A pair worth a notification: the token paired with WETH, the WETH
/// reserve in wei, and that reserve written in ether.
pub struct PooledWeth {
    pub token: [u8; 20],
    pub reserve: u128,
    pub pooled_ether: String,
}

/// Reads a `PairCreated` log: the tokens are the last 20 bytes of the second
/// and third topics, the pair is bytes 12 to 32 of the data.
pub fn decode_pair_created(topics: &Vec<[u8; 32]>, data: &Vec<u8>) -> (res: PairCreated)
    requires
        topics.len() >= 3,
        data.len() >= 32,
    ensures
        res.token0@ == topics@[1]@.skip(12),
        res.token1@ == topics@[2]@.skip(12),
        res.pair@ == data@.subrange(12, 32),
{
    let token0 = address_from_word(&topics[1]);
    let token1 = address_from_word(&topics[2]);
    let mut pair = [0u8; 20];
    let mut i: usize = 0;
    while i < 20
        invariant
            i <= 20,
            data.len() >= 32,
            pair@.len() == 20,
            forall|j: int| 0 <= j < i ==> pair@[j] == data@[j + 12],
        decreases 20 - i,
    {
        pair[i] = data[i + 12];
        i = i + 1;
    }
    assert(pair@ =~= data@.subrange(12, 32));
    PairCreated { token0, token1, pair }
}

/// Whether two addresses are the same.
pub fn same_address(a: &[u8; 20], b: &[u8; 20]) -> (res: bool)
    ensures
        res == (a@ == b@),
{
    let mut i: usize = 0;
    while i < 20
        invariant
            i <= 20,
            a@.len() == 20,
            b@.len() == 20,
            forall|j: int| 0 <= j < i ==> a@[j] == b@[j],
        decreases 20 - i,
    {
        if a[i] != b[i] {
            assert(a@[i as int] != b@[i as int]);
            return false;
        }
        i = i + 1;
    }
    assert(a@ =~= b@);
    true
}

/// The bytes of the WETH address.
pub open spec fn weth_bytes() -> Seq<u8> {
    parsed_address(WETH_ADDRESS@)->0
}

/// The token on the other side of WETH, with the WETH reserve: when `token0`
/// is WETH, `token1` and the first reserve; otherwise `token0` and the second.
pub open spec fn weth_side(created: PairCreated, reserve0: u128, reserve1: u128) -> (
    Seq<u8>,
    u128,
) {
    if created.token0@ == weth_bytes() {
        (created.token1@, reserve0)
    } else {
        (created.token0@, reserve1)
    }
}

/// Decides whether a new pair is reported: its WETH reserve must be at least
/// one ether. Gives the other token, the reserve and the reserve in ether.
pub fn pooled_weth(created: &PairCreated, reserve0: u128, reserve1: u128) -> (res: Option<PooledWeth>)
    ensures
        ({
            let (token, reserve) = weth_side(*created, reserve0, reserve1);
            match res {
                None => reserve < ONE_ETHER,
                Some(p) => {
                    &&& reserve >= ONE_ETHER
                    &&& p.token@ == token
                    &&& p.reserve == reserve
                    &&& p.pooled_ether@ == ether_text(reserve as nat)
                },
            }
        }),
{
    let weth = weth_address();
    let (token, reserve) = if same_address(&created.token0, &weth) {
        (created.token1, reserve0)
    } else {
        (created.token0, reserve1)
    };
    if reserve < ONE_ETHER {
        return None;
    }
    let pooled_ether = format_ether_units(reserve);
    Some(PooledWeth { token, reserve, pooled_ether })
}

proof fn lemma_decimal_digits(n: nat)
    ensures
        decimal_text(n).len() >= 1,
        forall|i: int|
            0 <= i < decimal_text(n).len() ==> '0' <= #[trigger] decimal_text(n)[i] <= '9',
    decreases n,
{
    if n >= 10 {
        lemma_decimal_digits(n / 10);
    }
}

/// The pooled ether of a notification, an amount of wei written in ether and
/// then shortened, reads as the whole ethers, a `'.'` and the first two of the
/// 18 decimals.
pub proof fn pooled_ether_keeps_two_decimals(wei: nat)
    ensures
        prettified_decimal(ether_text(wei)) == decimal_text(wei / (ONE_ETHER as nat)) + seq!['.']
            + zero_padded(decimal_text(wei % (ONE_ETHER as nat)), 18).take(2),
{
    let whole = decimal_text(wei / (ONE_ETHER as nat));
    let frac = zero_padded(decimal_text(wei % (ONE_ETHER as nat)), 18);
    let t = ether_text(wei);
    lemma_decimal_digits(wei / (ONE_ETHER as nat));
    assert(frac.len() >= 18);
    assert(t.len() == whole.len() + 1 + frac.len());
    lemma_utf8_len_at_least_chars(t);
    reveal_strlit("0");
    assert(t != "0"@) by {
        assert(t.len() != "0"@.len());
    }
    assert(!kept_whole(t));
    let l = whole.len() as int;
    assert(t[l] == '.');
    assert(t.contains('.'));
    t.index_of_first_ensures('.');
    assert(dot_index(t) == l) by {
        let d = dot_index(t);
        if d < l {
            assert(t[d] == whole[d]);
        }
    }
    assert(t.take(l + 3) =~= whole + seq!['.'] + frac.take(2));
}

/// Which side of a pair is reported. When `token0` is WETH, `token1` is
/// reported with the first reserve. When `token1` is WETH and `token0` is not,
/// `token0` is reported with the second reserve. When exactly one side is
/// WETH, the reported token is not WETH.
pub proof fn weth_side_reports_the_other_token(created: PairCreated, reserve0: u128, reserve1: u128)
    ensures
        created.token0@ == weth_bytes() ==> weth_side(created, reserve0, reserve1) == (
            created.token1@,
            reserve0,
        ),
        created.token1@ == weth_bytes() && created.token0@ != weth_bytes() ==> weth_side(
            created,
            reserve0,
            reserve1,
        ) == (created.token0@, reserve1),
        (created.token0@ == weth_bytes()) != (created.token1@ == weth_bytes()) ==> weth_side(
            created,
            reserve0,
            reserve1,
        ).0 != weth_bytes(),
{
}

/// When `token0` is not WETH, the choice depends on nothing else of it: two
/// pairs whose `token0` both differ from WETH report their own `token0` with
/// their second reserve.
pub proof fn weth_side_ignores_a_non_weth_token0(
    a: PairCreated,
    b: PairCreated,
    reserve0: u128,
    reserve1: u128,
)
    requires
        a.token0@ != weth_bytes(),
        b.token0@ != weth_bytes(),
    ensures
        weth_side(a, reserve0, reserve1).1 == weth_side(b, reserve0, reserve1).1,
        weth_side(a, reserve0, reserve1).1 == reserve1,
        weth_side(a, reserve0, reserve1).0 == a.token0@,
        weth_side(b, reserve0, reserve1).0 == b.token0@,
{
}

/// The WETH address that pairs are compared with is the one whose text is
/// `WETH_ADDRESS`.
pub proof fn weth_bytes_are_written_as_weth_address()
    ensures
        weth_bytes().len() == 20,
        address_text_of(weth_bytes()) == WETH_ADDRESS@,
{
    reveal_strlit("0xc02aaa39b223fe8d0a0e5c4f27ead9083c756cc2");
    lemma_lowercase_address_text(WETH_ADDRESS@);
}

/// The number that a text of decimal digits reads as.
pub open spec fn digits_value(s: Seq<char>) -> int
    decreases s.len(),
{
    if s.len() == 0 {
        0
    } else {
        10 * digits_value(s.drop_last()) + (s.last() as int - 48)
    }
}

/// Ten to the power `k`.
pub open spec fn pow10(k: nat) -> nat
    decreases k,
{
    if k == 0 {
        1
    } else {
        10 * pow10((k - 1) as nat)
    }
}

proof fn lemma_digits_value_concat(a: Seq<char>, b: Seq<char>)
    ensures
        digits_value(a + b) == digits_value(a) * pow10(b.len()) + digits_value(b),
    decreases b.len(),
{
    if b.len() == 0 {
        assert(a + b =~= a);
        assert(pow10(0) == 1);
        assert(digits_value(a) * 1 == digits_value(a));
    } else {
        assert((a + b).drop_last() =~= a + b.drop_last());
        lemma_digits_value_concat(a, b.drop_last());
        let va = digits_value(a);
        let p = pow10((b.len() - 1) as nat);
        assert((a + b).last() == b.last());
        assert(pow10(b.len()) == 10 * p);
        assert(10 * (va * p) == va * (10 * p)) by (nonlinear_arith);
        assert(digits_value(a + b) == 10 * digits_value((a + b).drop_last()) + ((a + b).last() as int - 48));
        assert(digits_value(b) == 10 * digits_value(b.drop_last()) + (b.last() as int - 48));
    }
}

proof fn lemma_zeros_value(k: nat)
    ensures
        digits_value(Seq::new(k, |i: int| '0')) == 0,
    decreases k,
{
    if k > 0 {
        assert(Seq::new(k, |i: int| '0').drop_last() =~= Seq::new((k - 1) as nat, |i: int| '0'));
        lemma_zeros_value((k - 1) as nat);
    }
}

proof fn lemma_decimal_len_bound(n: nat, k: nat)
    requires
        k >= 1,
        n < pow10(k),
    ensures
        decimal_text(n).len() <= k,
    decreases n,
{
    if n >= 10 {
        assert(k >= 2) by {
            if k == 1 {
                assert(pow10(1) == 10 * pow10(0));
            }
        }
        assert(n / 10 < pow10((k - 1) as nat));
        lemma_decimal_len_bound(n / 10, (k - 1) as nat);
    }
}

/// The decimal text of `n` reads back as `n`, and has no leading zero but for
/// zero itself.
pub proof fn decimal_text_reads_back(n: nat)
    ensures
        digits_value(decimal_text(n)) == n,
        decimal_text(n).len() >= 1,
        decimal_text(n)[0] == '0' ==> n == 0,
        forall|i: int|
            0 <= i < decimal_text(n).len() ==> '0' <= #[trigger] decimal_text(n)[i] <= '9',
    decreases n,
{
    lemma_decimal_digits(n);
    let d = (n % 10) as int;
    assert(digit_char(d) as int == 48 + d);
    if n < 10 {
        assert(decimal_text(n).drop_last() =~= Seq::<char>::empty());
        assert(decimal_text(n).last() == digit_char(d));
        assert(digits_value(decimal_text(n)) == 10 * digits_value(decimal_text(n).drop_last()) + (decimal_text(n).last() as int - 48));
    } else {
        assert(decimal_text(n).last() == digit_char(d));
        assert(digits_value(decimal_text(n)) == 10 * digits_value(decimal_text(n).drop_last()) + (decimal_text(n).last() as int - 48));
        decimal_text_reads_back(n / 10);
        assert(decimal_text(n).drop_last() =~= decimal_text(n / 10));
        assert(decimal_text(n)[0] == decimal_text(n / 10)[0]);
    }
}

/// An amount of wei written in ether is the whole ethers in decimal, a `'.'`,
/// and exactly 18 digits that read as the wei left over.
pub proof fn ether_text_reads_back(wei: nat)
    ensures
        ({
            let t = ether_text(wei);
            let l = t.len() - 19;
            &&& l >= 1
            &&& t[l] == '.'
            &&& digits_value(t.take(l)) == wei / (ONE_ETHER as nat)
            &&& t.skip(l + 1).len() == 18
            &&& digits_value(t.skip(l + 1)) == wei % (ONE_ETHER as nat)
            &&& forall|i: int| 0 <= i < t.len() && i != l ==> '0' <= #[trigger] t[i] <= '9'
        }),
{
    let q = wei / (ONE_ETHER as nat);
    let r = wei % (ONE_ETHER as nat);
    let whole = decimal_text(q);
    let frac = decimal_text(r);
    decimal_text_reads_back(q);
    decimal_text_reads_back(r);
    reveal_with_fuel(pow10, 19);
    assert(pow10(18) == ONE_ETHER as nat);
    lemma_decimal_len_bound(r, 18);
    let zeros = Seq::new((18 - frac.len()) as nat, |i: int| '0');
    let padded = zero_padded(frac, 18);
    assert(padded =~= zeros + frac);
    lemma_digits_value_concat(zeros, frac);
    lemma_zeros_value((18 - frac.len()) as nat);
    let t = ether_text(wei);
    let l = whole.len() as int;
    assert(t.len() == l + 19);
    assert(t.take(l) =~= whole);
    assert(t.skip(l + 1) =~= padded);
    assert forall|i: int| 0 <= i < t.len() && i != l implies '0' <= #[trigger] t[i] <= '9' by {
        if i < l {
            assert(t[i] == whole[i]);
        } else {
            assert(t[i] == padded[i - l - 1]);
            if i - l - 1 >= zeros.len() {
                assert(padded[i - l - 1] == frac[i - l - 1 - zeros.len()]);
            }
        }
    }
}

} // verus!
