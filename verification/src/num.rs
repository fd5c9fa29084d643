//! Numbers: decimal text, parsing, and saturating 64-bit arithmetic.
//!
//! Runtime numbers are `i64`.  Addition, subtraction, multiplication and
//! exponentiation saturate at the type's bounds; division and remainder
//! truncate toward zero, as the corresponding operators do.

use vstd::prelude::*;

verus! {

/// The character for a single decimal digit.
pub open spec fn digit_char(d: nat) -> char {
    if d == 0 {
        '0'
    } else if d == 1 {
        '1'
    } else if d == 2 {
        '2'
    } else if d == 3 {
        '3'
    } else if d == 4 {
        '4'
    } else if d == 5 {
        '5'
    } else if d == 6 {
        '6'
    } else if d == 7 {
        '7'
    } else if d == 8 {
        '8'
    } else {
        '9'
    }
}

/// The decimal digits of a natural number, most significant first, with no
/// leading zeros (a lone zero for 0).
pub open spec fn dec_rep(n: nat) -> Seq<char>
    decreases n,
{
    if n < 10 {
        seq![digit_char(n)]
    } else {
        dec_rep(n / 10) + seq![digit_char(n % 10)]
    }
}

/// The canonical decimal text of an integer: a minus sign and the digits
/// of its magnitude, or just the digits.
pub open spec fn int_text(n: int) -> Seq<char> {
    if n < 0 {
        seq!['-'] + dec_rep((-n) as nat)
    } else {
        dec_rep(n as nat)
    }
}

pub open spec fn is_digit(c: char) -> bool {
    '0' <= c && c <= '9'
}

pub open spec fn digit_val(c: char) -> nat {
    (c as int - '0' as int) as nat
}

pub open spec fn all_digits(s: Seq<char>) -> bool {
    forall|i: int| 0 <= i < s.len() ==> is_digit(#[trigger] s[i])
}

/// The value of a digit string, most significant digit first.
pub open spec fn digits_val(s: Seq<char>) -> nat
    decreases s.len(),
{
    if s.len() == 0 {
        0
    } else {
        digits_val(s.drop_last()) * 10 + digit_val(s.last())
    }
}

/// Parsing an integer from text: an optional sign, then one or more
/// decimal digits, the whole value within the 64-bit signed range.
/// Anything else has no value.
pub open spec fn parse_int_v(s: Seq<char>) -> Option<int> {
    let sign = s.len() > 0 && (s[0] == '-' || s[0] == '+');
    let neg = s.len() > 0 && s[0] == '-';
    let ds = if sign {
        s.drop_first()
    } else {
        s
    };
    if ds.len() == 0 || !all_digits(ds) {
        Option::None
    } else {
        let v = if neg {
            -(digits_val(ds) as int)
        } else {
            digits_val(ds) as int
        };
        if i64::MIN <= v <= i64::MAX {
            Option::Some(v)
        } else {
            Option::None
        }
    }
}

/// An integer clamped to the 64-bit signed range.
pub open spec fn clamp64(v: int) -> int {
    if v > i64::MAX {
        i64::MAX as int
    } else if v < i64::MIN {
        i64::MIN as int
    } else {
        v
    }
}

/// Division truncated toward zero: the magnitude quotient with the sign of
/// the exact quotient.
pub open spec fn trunc_div_s(a: int, b: int) -> int {
    let mag = abs_n(a) / abs_n(b);
    if (a < 0) != (b < 0) {
        -(mag as int)
    } else {
        mag as int
    }
}

/// Remainder of truncated division: the magnitude remainder with the sign
/// of the dividend.
pub open spec fn trunc_rem_s(a: int, b: int) -> int {
    let mag = abs_n(a) % abs_n(b);
    if a < 0 {
        -(mag as int)
    } else {
        mag as int
    }
}

pub open spec fn abs_n(a: int) -> nat {
    if a < 0 {
        (-a) as nat
    } else {
        a as nat
    }
}

/// Exponentiation by repeated saturating multiplication.
pub open spec fn sat_pow(b: int, e: nat) -> int
    decreases e,
{
    if e == 0 {
        1
    } else {
        clamp64(sat_pow(b, (e - 1) as nat) * b)
    }
}

fn digit_str(d: u64) -> (s: &'static str)
    requires
        d < 10,
    ensures
        s@ == seq![digit_char(d as nat)],
{
    proof {
        reveal_strlit("0");
        reveal_strlit("1");
        reveal_strlit("2");
        reveal_strlit("3");
        reveal_strlit("4");
        reveal_strlit("5");
        reveal_strlit("6");
        reveal_strlit("7");
        reveal_strlit("8");
        reveal_strlit("9");
    }
    let s = match d {
        0 => "0",
        1 => "1",
        2 => "2",
        3 => "3",
        4 => "4",
        5 => "5",
        6 => "6",
        7 => "7",
        8 => "8",
        _ => "9",
    };
    proof {
        assert(s@ =~= seq![digit_char(d as nat)]);
    }
    s
}

fn u64_text(n: u64) -> (s: String)
    ensures
        s@ == dec_rep(n as nat),
    decreases n,
{
    if n < 10 {
        digit_str(n).to_owned()
    } else {
        let mut s = u64_text(n / 10);
        s.append(digit_str(n % 10));
        proof {
            assert(s@ =~= dec_rep(n as nat));
        }
        s
    }
}

/// The decimal text of a 64-bit signed integer.
pub fn int_to_text(n: i64) -> (s: String)
    ensures
        s@ == int_text(n as int),
{
    if n >= 0 {
        u64_text(n as u64)
    } else {
        let mag: u64 = (-(n as i128)) as u64;
        let mut s = "-".to_owned();
        s.append(u64_text(mag).as_str());
        proof {
            reveal_strlit("-");
            assert(s@ =~= int_text(n as int));
        }
        s
    }
}

proof fn lemma_digits_val_prefix_mono(s: Seq<char>, i: int)
    requires
        0 <= i <= s.len(),
    ensures
        digits_val(s.take(i)) <= digits_val(s),
    decreases s.len() - i,
{
    if i < s.len() {
        lemma_digits_val_prefix_mono(s, i + 1);
        assert(s.take(i + 1).drop_last() =~= s.take(i));
        assert(digits_val(s.take(i + 1)) == digits_val(s.take(i)) * 10 + digit_val(
            s.take(i + 1).last(),
        ));
    } else {
        assert(s.take(i) =~= s);
    }
}

/// Parse an integer from text: an optional sign, then decimal digits.
/// Yields nothing on any other shape or when the value leaves the 64-bit
/// signed range.
pub fn parse_int(s: &str) -> (r: Option<i64>)
    ensures
        match parse_int_v(s@) {
            Option::Some(v) => r == Option::Some(v as i64) && v == r.unwrap() as int,
            Option::None => r is None,
        },
{
    let len = s.unicode_len();
    let mut start: usize = 0;
    let mut neg = false;
    if len > 0 {
        let c0 = s.get_char(0);
        if c0 == '-' {
            neg = true;
            start = 1;
        } else if c0 == '+' {
            start = 1;
        }
    }
    let ghost ds = s@.subrange(start as int, len as int);
    proof {
        if start == 1 {
            assert(ds =~= s@.drop_first());
        } else {
            assert(ds =~= s@);
        }
    }
    if start == len {
        return Option::None;
    }
    let mut i: usize = start;
    let mut acc: u64 = 0;
    while i < len
        invariant
            start <= i <= len,
            start < len,
            len == s@.len(),
            neg == (s@.len() > 0 && s@[0] == '-'),
            start as int == if s@.len() > 0 && (s@[0] == '-' || s@[0] == '+') {
                1int
            } else {
                0int
            },
            ds == s@.subrange(start as int, len as int),
            all_digits(ds.take(i - start)),
            acc as nat == digits_val(ds.take(i - start)),
        decreases len - i,
    {
        proof {
            if start == 1 {
                assert(s@.drop_first() =~= ds);
            } else {
                assert(s@ =~= ds);
            }
        }
        let c = s.get_char(i);
        let cv = c as u32;
        if cv < 48 || cv > 57 {
            proof {
                assert(ds[i - start] == c);
                assert(!is_digit(c)) by {
                    assert('0' as u32 == 48 && '9' as u32 == 57);
                }
            }
            return Option::None;
        }
        let d = (cv - 48) as u64;
        proof {
            assert(is_digit(c)) by {
                assert('0' as u32 == 48 && '9' as u32 == 57);
            }
            assert(ds[i - start] == c);
            assert(digit_val(c) == d as nat);
        }
        let acc10 = match acc.checked_mul(10) {
            Option::Some(v) => v,
            Option::None => {
                proof {
                    lemma_step_value(ds, i - start, acc as nat, d as nat);
                    lemma_digits_val_prefix_mono(ds, i - start + 1);
                    assert(digits_val(ds.take(i - start + 1)) > u64::MAX as nat);
                    assert(digits_val(ds) > u64::MAX as nat);
                    assert(digits_val(ds) > i64::MAX as nat);
                    assert(parse_int_v(s@) is None);
                }
                return Option::None;
            },
        };
        let acc2 = match acc10.checked_add(d) {
            Option::Some(v) => v,
            Option::None => {
                proof {
                    lemma_step_value(ds, i - start, acc as nat, d as nat);
                    lemma_digits_val_prefix_mono(ds, i - start + 1);
                    assert(digits_val(ds.take(i - start + 1)) > u64::MAX as nat);
                    assert(digits_val(ds) > u64::MAX as nat);
                    assert(digits_val(ds) > i64::MAX as nat);
                    assert(parse_int_v(s@) is None);
                }
                return Option::None;
            },
        };
        proof {
            lemma_step_value(ds, i - start, acc as nat, d as nat);
        }
        acc = acc2;
        i = i + 1;
    }
    proof {
        assert(ds.take(i - start) =~= ds);
    }
    if neg {
        if acc > 9223372036854775808u64 {
            return Option::None;
        }
        Option::Some((-(acc as i128)) as i64)
    } else {
        if acc > 9223372036854775807u64 {
            return Option::None;
        }
        Option::Some(acc as i64)
    }
}

proof fn lemma_step_value(ds: Seq<char>, j: int, acc: nat, d: nat)
    requires
        0 <= j < ds.len(),
        acc == digits_val(ds.take(j)),
        d == digit_val(ds[j]),
    ensures
        digits_val(ds.take(j + 1)) == acc * 10 + d,
{
    assert(ds.take(j + 1).drop_last() =~= ds.take(j));
    assert(ds.take(j + 1).last() == ds[j]);
}

/// Saturating addition.
pub fn sat_add(a: i64, b: i64) -> (r: i64)
    ensures
        r as int == clamp64(a + b),
{
    match a.checked_add(b) {
        Option::Some(v) => v,
        Option::None => if a > 0 {
            i64::MAX
        } else {
            i64::MIN
        },
    }
}

/// Saturating subtraction.
pub fn sat_sub(a: i64, b: i64) -> (r: i64)
    ensures
        r as int == clamp64(a - b),
{
    match a.checked_sub(b) {
        Option::Some(v) => v,
        Option::None => if a >= 0 {
            i64::MAX
        } else {
            i64::MIN
        },
    }
}

/// Saturating multiplication.
pub fn sat_mul(a: i64, b: i64) -> (r: i64)
    ensures
        r as int == clamp64(a * b),
{
    match a.checked_mul(b) {
        Option::Some(v) => v,
        Option::None => {
            proof {
                if (a > 0) == (b > 0) {
                    assert(a * b >= 0) by (nonlinear_arith)
                        requires
                            (a > 0) == (b > 0),
                    ;
                } else {
                    assert(a * b <= 0) by (nonlinear_arith)
                        requires
                            (a > 0) != (b > 0),
                    ;
                }
            }
            if (a > 0) == (b > 0) {
                i64::MAX
            } else {
                i64::MIN
            }
        },
    }
}

fn abs_u64(a: i64) -> (r: u64)
    ensures
        r as nat == abs_n(a as int),
{
    if a < 0 {
        (-(a as i128)) as u64
    } else {
        a as u64
    }
}

/// Division truncated toward zero, saturating on the one overflowing case.
pub fn div_trunc(a: i64, b: i64) -> (r: i64)
    requires
        b != 0,
    ensures
        r as int == clamp64(trunc_div_s(a as int, b as int)),
{
    let ma = abs_u64(a);
    let mb = abs_u64(b);
    let q = ma / mb;
    if (a < 0) != (b < 0) {
        (-(q as i128)) as i64
    } else {
        if q > 9223372036854775807u64 {
            i64::MAX
        } else {
            q as i64
        }
    }
}

/// Remainder of truncated division; carries the sign of the dividend.
pub fn rem_trunc(a: i64, b: i64) -> (r: i64)
    requires
        b != 0,
    ensures
        r as int == trunc_rem_s(a as int, b as int),
{
    let ma = abs_u64(a);
    let mb = abs_u64(b);
    let m = ma % mb;
    if a < 0 {
        (-(m as i128)) as i64
    } else {
        m as i64
    }
}

/// Exponentiation by repeated saturating multiplication.
pub fn sat_pow_exec(b: i64, e: u64) -> (r: i64)
    ensures
        r as int == sat_pow(b as int, e as nat),
{
    let mut acc: i64 = 1;
    let mut i: u64 = 0;
    while i < e
        invariant
            0 <= i <= e,
            acc as int == sat_pow(b as int, i as nat),
        decreases e - i,
    {
        acc = sat_mul(acc, b);
        i = i + 1;
    }
    acc
}

proof fn lemma_digit_char_val(d: nat)
    requires
        d < 10,
    ensures
        is_digit(digit_char(d)),
        digit_val(digit_char(d)) == d,
{
}

proof fn lemma_dec_rep_digits(n: nat)
    ensures
        dec_rep(n).len() >= 1,
        all_digits(dec_rep(n)),
        digits_val(dec_rep(n)) == n,
    decreases n,
{
    if n < 10 {
        lemma_digit_char_val(n);
        assert(dec_rep(n) =~= seq![digit_char(n)]);
        assert(dec_rep(n).drop_last() =~= Seq::<char>::empty());
        assert(digits_val(dec_rep(n).drop_last()) == 0);
        assert(dec_rep(n).last() == digit_char(n));
        assert(digits_val(dec_rep(n)) == digits_val(dec_rep(n).drop_last()) * 10 + digit_val(
            dec_rep(n).last(),
        ));
        assert(dec_rep(n)[0] == digit_char(n));
    } else {
        lemma_dec_rep_digits(n / 10);
        lemma_digit_char_val(n % 10);
        let whole = dec_rep(n);
        assert(whole =~= dec_rep(n / 10) + seq![digit_char(n % 10)]);
        assert(whole.drop_last() =~= dec_rep(n / 10));
        assert(whole.last() == digit_char(n % 10));
        assert(digits_val(whole) == (n / 10) * 10 + n % 10);
        assert(n == 10 * (n / 10) + n % 10) by {
            vstd::arithmetic::div_mod::lemma_fundamental_div_mod(n as int, 10);
        }
        assert forall|i: int| 0 <= i < whole.len() implies is_digit(#[trigger] whole[i]) by {
            if i < whole.len() - 1 {
                assert(whole[i] == dec_rep(n / 10)[i]);
            }
        }
    }
}

/// Law: the decimal text of a number parses back to that number; the
/// formatter and the parser agree on every 64-bit value.
pub proof fn lemma_int_text_round_trip(n: int)
    requires
        i64::MIN <= n <= i64::MAX,
    ensures
        parse_int_v(int_text(n)) == Option::Some(n),
{
    if n < 0 {
        lemma_dec_rep_digits((-n) as nat);
        let s = int_text(n);
        assert(s =~= seq!['-'] + dec_rep((-n) as nat));
        assert(s[0] == '-');
        assert(s.drop_first() =~= dec_rep((-n) as nat));
    } else {
        lemma_dec_rep_digits(n as nat);
        let s = int_text(n);
        assert(s[0] == dec_rep(n as nat)[0]);
        assert(is_digit(s[0]));
        assert(s[0] != '-' && s[0] != '+');
    }
}

} // verus!
