//! Monetary amounts ("wei") are decimal-string-encoded integers.
//!
//! This module gives the decimal model (`dec_val`, `parsed_numeral`), the
//! exact string-to-`i128` reading used everywhere (`parse_wei`), the
//! non-negative amount the engine works with (`wei_value`), and the
//! integer-exact minimum-increment rule for auction bids (`min_next_bid`).

use vstd::prelude::*;
use vstd::arithmetic::div_mod::lemma_fundamental_div_mod;
use vstd::arithmetic::div_mod::lemma_fundamental_div_mod_converse_div;

verus! {

pub open spec fn is_digit(c: char) -> bool {
    '0' as u32 <= c as u32 && c as u32 <= '9' as u32
}

pub open spec fn digit_val(c: char) -> int {
    c as u32 - '0' as u32
}

pub open spec fn all_digits(s: Seq<char>) -> bool {
    forall|i: int| 0 <= i < s.len() ==> is_digit(#[trigger] s[i])
}

/// Value of a digit string, most significant digit first.
pub open spec fn dec_val(s: Seq<char>) -> int
    decreases s.len(),
{
    if s.len() == 0 {
        0
    } else {
        dec_val(s.drop_last()) * 10 + digit_val(s.last())
    }
}

/// Sign and digit part of a numeral, as `str::parse` for integers reads it:
/// at most one leading `+` or `-`, then the digits.
pub open spec fn numeral_sign(s: Seq<char>) -> int {
    if s.len() > 0 && s[0] == '-' {
        -1
    } else {
        1
    }
}

pub open spec fn numeral_digits(s: Seq<char>) -> Seq<char> {
    if s.len() > 0 && (s[0] == '-' || s[0] == '+') {
        s.drop_first()
    } else {
        s
    }
}

/// Whether `s` is a numeral that `str::parse::<i128>` accepts: a nonempty
/// all-digit part after the optional sign, with the value in `i128`'s range.
pub open spec fn is_i128_numeral(s: Seq<char>) -> bool {
    &&& numeral_digits(s).len() > 0
    &&& all_digits(numeral_digits(s))
    &&& i128::MIN <= numeral_sign(s) * dec_val(numeral_digits(s)) <= i128::MAX
}

pub open spec fn numeral_val(s: Seq<char>) -> int {
    numeral_sign(s) * dec_val(numeral_digits(s))
}

/// What `parse_wei` returns: the parsed value, or 0 for anything else.
pub open spec fn parsed_wei(s: Option<Seq<char>>) -> int {
    match s {
        Some(t) => if is_i128_numeral(t) {
            numeral_val(t)
        } else {
            0
        },
        None => 0,
    }
}

/// The amount an engine operation works with: amounts are non-negative
/// integers, and a string that does not encode one counts as 0.
pub open spec fn wei_value(s: Seq<char>) -> int {
    if parsed_wei(Some(s)) < 0 {
        0
    } else {
        parsed_wei(Some(s))
    }
}

proof fn lemma_dec_val_nonneg(s: Seq<char>)
    requires
        all_digits(s),
    ensures
        dec_val(s) >= 0,
    decreases s.len(),
{
    if s.len() > 0 {
        assert(all_digits(s.drop_last()));
        lemma_dec_val_nonneg(s.drop_last());
    }
}

/// Appending one digit multiplies the value by ten and adds the digit.
proof fn lemma_dec_val_push(s: Seq<char>, c: char)
    ensures
        dec_val(s.push(c)) == dec_val(s) * 10 + digit_val(c),
{
    assert(s.push(c).drop_last() =~= s);
    assert(s.push(c).last() == c);
}

fn char_digit(c: char) -> (r: Option<u8>)
    ensures
        match r {
            Some(d) => is_digit(c) && d as int == digit_val(c),
            None => !is_digit(c),
        },
{
    let u = c as u32;
    if 48 <= u && u <= 57 {
        Some((u - 48) as u8)
    } else {
        None
    }
}

/// Reads an optional decimal string as the engine does everywhere: the
/// `i128` it encodes, or 0 when it is absent, malformed or out of range.
pub fn parse_wei(x: Option<&str>) -> (r: i128)
    ensures
        r as int == parsed_wei(match x {
            Some(s) => Some(s@),
            None => None,
        }),
{
    match x {
        Some(s) => parse_i128_or_zero(s),
        None => 0,
    }
}

fn parse_i128_or_zero(s: &str) -> (r: i128)
    ensures
        r as int == parsed_wei(Some(s@)),
{
    let n = s.unicode_len();
    let mut start: usize = 0;
    let mut neg = false;
    if n > 0 {
        let c0 = s.get_char(0);
        if c0 == '-' {
            neg = true;
            start = 1;
        } else if c0 == '+' {
            start = 1;
        }
    }
    if n == start {
        // no digits at all
        assert(numeral_digits(s@).len() == 0);
        return 0;
    }
    let ghost ds = numeral_digits(s@);
    assert(ds =~= s@.subrange(start as int, n as int));
    let mut acc: u128 = 0;
    let mut too_big = false;
    let mut i: usize = start;
    while i < n
        invariant
            start <= i <= n,
            start < n,
            n == s@.len(),
            ds == numeral_digits(s@),
            neg <==> numeral_sign(s@) == -1,
            ds =~= s@.subrange(start as int, n as int),
            all_digits(s@.subrange(start as int, i as int)),
            !too_big ==> acc as int == dec_val(s@.subrange(start as int, i as int)),
            too_big ==> dec_val(s@.subrange(start as int, i as int)) > u128::MAX,
        decreases n - i,
    {
        let c = s.get_char(i);
        let ghost pre = s@.subrange(start as int, i as int);
        let ghost post = s@.subrange(start as int, i as int + 1);
        assert(post =~= pre.push(c));
        proof {
            lemma_dec_val_push(pre, c);
        }
        match char_digit(c) {
            None => {
                // the digit part holds a non-digit, so nothing parses
                proof {
                    assert(0 <= i - start < ds.len());
                    assert(ds[i - start] == c);
                    assert(!all_digits(numeral_digits(s@)));
                    assert(!is_i128_numeral(s@));
                }
                return 0;
            },
            Some(d) => {
                if too_big {
                    proof {
                        assert(dec_val(post) == dec_val(pre) * 10 + digit_val(c));
                        assert(dec_val(pre) * 10 >= dec_val(pre) + 9 * dec_val(pre));
                    }
                } else {
                    let next = acc.checked_mul(10);
                    match next {
                        Some(t) => {
                            let next2 = t.checked_add(d as u128);
                            match next2 {
                                Some(t2) => {
                                    acc = t2;
                                },
                                None => {
                                    too_big = true;
                                },
                            }
                        },
                        None => {
                            too_big = true;
                        },
                    }
                }
            },
        }
        i = i + 1;
    }
    assert(s@.subrange(start as int, n as int) =~= ds);
    assert(all_digits(ds));
    proof {
        lemma_dec_val_nonneg(ds);
    }
    if too_big {
        // magnitude above u128::MAX: out of range for either sign
        proof {
            assert(numeral_sign(s@) == 1 || numeral_sign(s@) == -1);
            assert(numeral_sign(s@) == 1 ==> numeral_val(s@) > i128::MAX);
            assert(numeral_sign(s@) == -1 ==> numeral_val(s@) < i128::MIN);
            assert(!is_i128_numeral(s@));
        }
        return 0;
    }
    proof {
        assert(ds.len() > 0);
        assert(neg ==> numeral_val(s@) == -1 * dec_val(ds));
        assert(!neg ==> numeral_val(s@) == 1 * dec_val(ds));
    }
    if neg {
        if acc > 170141183460469231731687303715884105728u128 {
            assert(numeral_val(s@) < i128::MIN);
            0
        } else if acc == 170141183460469231731687303715884105728u128 {
            assert(numeral_val(s@) == i128::MIN);
            i128::MIN
        } else {
            -(acc as i128)
        }
    } else {
        if acc > 170141183460469231731687303715884105727u128 {
            assert(numeral_val(s@) > i128::MAX);
            0
        } else {
            acc as i128
        }
    }
}

/// Reads an amount string as a non-negative amount.
pub fn wei_of(s: &str) -> (r: i128)
    ensures
        r as int == wei_value(s@),
        r >= 0,
{
    let v = parse_wei(Some(s));
    if v < 0 {
        0
    } else {
        v
    }
}

/// The least acceptable next bid over a current top bid: a minimum 2%
/// increment, rounded up (`ceil(current * 102 / 100)`).
pub open spec fn min_next_bid(current: int) -> int {
    (102 * current + 99) / 100
}

/// `(100 * k + t) / 100 == k + t / 100` for non-negative `t`.
proof fn lemma_div_100_split(k: int, t: int)
    requires
        t >= 0,
    ensures
        (100 * k + t) / 100 == k + t / 100,
{
    lemma_fundamental_div_mod(t, 100);
    lemma_fundamental_div_mod_converse_div(100 * k + t, 100, k + t / 100, t % 100);
}

/// A positive top bid strictly increases: the 2% increment, rounded up, is
/// at least 1.
pub proof fn lemma_min_next_bid_ge(c: int)
    requires
        c > 0,
    ensures
        min_next_bid(c) >= c + 1,
{
    lemma_div_100_split(c, 2 * c + 99);
    assert(102 * c + 99 == 100 * c + (2 * c + 99));
    lemma_fundamental_div_mod(2 * c + 99, 100);
}

/// Decides `next >= min_next_bid(current)` without overflow.
pub fn meets_min_increment(current: i128, next: i128) -> (r: bool)
    requires
        current > 0,
    ensures
        r == (next as int >= min_next_bid(current as int)),
{
    let cu = current as u128;
    let q: u128 = cu / 100;
    let rest: u128 = cu % 100;
    let step: u128 = (2 * rest + 99) / 100;
    let inc_u: u128 = 2 * q + step;
    proof {
        let c = current as int;
        lemma_fundamental_div_mod(c, 100);
        // ceil(2c/100) == 2*(c/100) + (2*(c%100) + 99)/100
        lemma_div_100_split(2 * (c / 100), 2 * (c % 100) + 99);
        assert(2 * c + 99 == 100 * (2 * (c / 100)) + (2 * (c % 100) + 99));
        // min_next_bid(c) == c + (2c + 99)/100
        lemma_div_100_split(c, 2 * c + 99);
        assert(102 * c + 99 == 100 * c + (2 * c + 99));
        assert(inc_u as int == (2 * c + 99) / 100);
        assert(min_next_bid(c) == c + inc_u as int);
    }
    let inc: i128 = inc_u as i128;
    match current.checked_add(inc) {
        Some(m) => next >= m,
        None => false,
    }
}

} // verus!
