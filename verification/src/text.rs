//! Small string helpers: address canonicalization and decimal rendering.

use vstd::prelude::*;

verus! {

/// The lowercase form of a character sequence, as `str::to_lowercase`
/// computes it.
pub uninterp spec fn lower_of(s: Seq<char>) -> Seq<char>;

/// Relies on str::to_lowercase: the result depends on the characters alone.
#[verifier::external_body]
fn lowercase(s: &str) -> (r: String)
    ensures
        r@ == lower_of(s@),
{
    s.to_lowercase()
}

/// String-slice equality, decided through owned strings.
pub(crate) fn str_eq(a: &str, b: &str) -> (r: bool)
    ensures
        r == (a@ == b@),
{
    let sa = a.to_owned();
    let sb = b.to_owned();
    sa == sb
}

/// Canonical form of a wallet address: its lowercase form.
pub fn normalize(addr: &str) -> (r: String)
    ensures
        r@ == lower_of(addr@),
{
    lowercase(addr)
}

pub open spec fn digit_char(d: int) -> char {
    if d == 0 {
        '0'
    } else if d == 1 {
        '1'
    } else if d == 2 {
        '2'
    } else if d == 3 {
        '3'
    } else if d == 4 {
        '4'
    } else if d == 5 {
        '5'
    } else if d == 6 {
        '6'
    } else if d == 7 {
        '7'
    } else if d == 8 {
        '8'
    } else {
        '9'
    }
}

/// Decimal rendering of a non-negative integer, no leading zeros.
pub open spec fn dec_digits(n: int) -> Seq<char>
    decreases n,
{
    if n < 10 {
        seq![digit_char(n)]
    } else {
        dec_digits(n / 10).push(digit_char(n % 10))
    }
}

/// Decimal rendering of a signed integer.
pub open spec fn dec_int(n: int) -> Seq<char> {
    if n < 0 {
        seq!['-'] + dec_digits(-n)
    } else {
        dec_digits(n)
    }
}

fn digit_str(d: u64) -> (r: &'static str)
    requires
        d < 10,
    ensures
        r@ == seq![digit_char(d as int)],
{
    proof {
        reveal_strlit("0");
        reveal_strlit("1");
        reveal_strlit("2");
        reveal_strlit("3");
        reveal_strlit("4");
        reveal_strlit("5");
        reveal_strlit("6");
        reveal_strlit("7");
        reveal_strlit("8");
        reveal_strlit("9");
    }
    match d {
        0 => {
            assert("0"@ =~= seq![digit_char(0)]);
            "0"
        },
        1 => {
            assert("1"@ =~= seq![digit_char(1)]);
            "1"
        },
        2 => {
            assert("2"@ =~= seq![digit_char(2)]);
            "2"
        },
        3 => {
            assert("3"@ =~= seq![digit_char(3)]);
            "3"
        },
        4 => {
            assert("4"@ =~= seq![digit_char(4)]);
            "4"
        },
        5 => {
            assert("5"@ =~= seq![digit_char(5)]);
            "5"
        },
        6 => {
            assert("6"@ =~= seq![digit_char(6)]);
            "6"
        },
        7 => {
            assert("7"@ =~= seq![digit_char(7)]);
            "7"
        },
        8 => {
            assert("8"@ =~= seq![digit_char(8)]);
            "8"
        },
        _ => {
            assert("9"@ =~= seq![digit_char(9)]);
            "9"
        },
    }
}

/// Renders `n` in decimal.
pub fn u64_dec(n: u64) -> (r: String)
    ensures
        r@ == dec_digits(n as int),
    decreases n,
{
    if n < 10 {
        String::from_str(digit_str(n))
    } else {
        let mut s = u64_dec(n / 10);
        s.append(digit_str(n % 10));
        assert(s@ =~= dec_digits(n as int));
        s
    }
}

/// Renders `n` in decimal, with a leading minus sign when negative.
pub fn i64_dec(n: i64) -> (r: String)
    ensures
        r@ == dec_int(n as int),
{
    if n >= 0 {
        u64_dec(n as u64)
    } else {
        let mag: u64 = if n == i64::MIN {
            9223372036854775808u64
        } else {
            (-n) as u64
        };
        proof {
            reveal_strlit("-");
        }
        let mut s = String::from_str("-");
        let tail = u64_dec(mag);
        s.append(tail.as_str());
        assert(s@ =~= dec_int(n as int));
        s
    }
}

} // verus!
