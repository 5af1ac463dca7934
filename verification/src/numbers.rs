//! Decimal numerals: what it means for raw field text to parse as an
//! integer, and verified parsers matching `str::parse` for integer types.

use vstd::prelude::*;

verus! {

/// Whether `c` is a decimal digit.
pub open spec fn is_digit(c: char) -> bool {
    48 <= c as u32 && c as u32 <= 57
}

/// Numeric value of a decimal digit.
pub open spec fn digit_val(c: char) -> int {
    c as u32 - 48
}

/// Whether every character of `s` is a decimal digit.
pub open spec fn all_digits(s: Seq<char>) -> bool {
    forall|i: int| 0 <= i < s.len() ==> is_digit(s[i])
}

/// Value of a string of decimal digits, most significant first.
pub open spec fn dec_val(s: Seq<char>) -> int
    decreases s.len(),
{
    if s.len() == 0 {
        0
    } else {
        dec_val(s.subrange(0, s.len() - 1)) * 10 + digit_val(s[s.len() - 1])
    }
}

/// The digits of an unsigned numeral: everything after one optional `+`.
pub open spec fn unsigned_digits(s: Seq<char>) -> Seq<char> {
    if s.len() > 0 && s[0] == '+' {
        s.subrange(1, s.len() as int)
    } else {
        s
    }
}

/// The digits of a signed numeral: everything after one optional `+` or `-`.
pub open spec fn signed_digits(s: Seq<char>) -> Seq<char> {
    if s.len() > 0 && (s[0] == '+' || s[0] == '-') {
        s.subrange(1, s.len() as int)
    } else {
        s
    }
}

/// Whether a numeral carries a minus sign.
pub open spec fn has_minus_sign(s: Seq<char>) -> bool {
    s.len() > 0 && s[0] == '-'
}

/// Whether `s` is a decimal numeral that fits in `u64`: one optional `+`,
/// then at least one digit, with value at most `u64::MAX`.
pub open spec fn is_u64_str(s: Seq<char>) -> bool {
    let d = unsigned_digits(s);
    d.len() > 0 && all_digits(d) && dec_val(d) <= u64::MAX
}

/// The value of a `u64` numeral.
pub open spec fn u64_str_val(s: Seq<char>) -> int {
    dec_val(unsigned_digits(s))
}

/// Whether `s` is a decimal numeral that fits in `u8`.
pub open spec fn is_u8_str(s: Seq<char>) -> bool {
    let d = unsigned_digits(s);
    d.len() > 0 && all_digits(d) && dec_val(d) <= u8::MAX
}

/// The value of a `u8` numeral.
pub open spec fn u8_str_val(s: Seq<char>) -> int {
    dec_val(unsigned_digits(s))
}

/// Whether `s` is a decimal numeral that fits in `i64`: one optional `+` or
/// `-`, then at least one digit, with the signed value in `i64`'s range.
pub open spec fn is_i64_str(s: Seq<char>) -> bool {
    let d = signed_digits(s);
    d.len() > 0 && all_digits(d) && (if has_minus_sign(s) {
        dec_val(d) <= 0x8000_0000_0000_0000
    } else {
        dec_val(d) <= i64::MAX
    })
}

/// The value of an `i64` numeral.
pub open spec fn i64_str_val(s: Seq<char>) -> int {
    if has_minus_sign(s) {
        -dec_val(signed_digits(s))
    } else {
        dec_val(signed_digits(s))
    }
}

/// A digit string has a nonnegative value.
proof fn lemma_dec_val_nonneg(s: Seq<char>)
    requires
        all_digits(s),
    ensures
        dec_val(s) >= 0,
    decreases s.len(),
{
    if s.len() > 0 {
        let t = s.subrange(0, s.len() - 1);
        lemma_dec_val_nonneg(t);
    }
}

/// A prefix of a digit string is worth no more than the whole string.
proof fn lemma_dec_val_prefix(s: Seq<char>, i: int)
    requires
        all_digits(s),
        0 <= i <= s.len(),
    ensures
        dec_val(s.subrange(0, i)) <= dec_val(s),
    decreases s.len() - i,
{
    if i == s.len() {
        assert(s.subrange(0, i) =~= s);
    } else {
        let p = s.subrange(0, i);
        let q = s.subrange(0, i + 1);
        assert(q.subrange(0, q.len() - 1) =~= p);
        lemma_dec_val_nonneg(p);
        assert(dec_val(q) == dec_val(p) * 10 + digit_val(s[i]));
        lemma_dec_val_prefix(s, i + 1);
    }
}

/// Parses the decimal digits of `s` from position `start` to the end,
/// returning their value when they are nonempty, all digits, and fit in
/// `u64`.
fn parse_digits(s: &str, start: usize) -> (r: Option<u64>)
    requires
        start <= s@.len(),
    ensures
        ({
            let d = s@.subrange(start as int, s@.len() as int);
            match r {
                Some(n) => d.len() > 0 && all_digits(d) && n == dec_val(d),
                None => !(d.len() > 0 && all_digits(d) && dec_val(d) <= u64::MAX),
            }
        }),
{
    let n: usize = s.unicode_len();
    if start == n {
        return None;
    }
    let ghost d = s@.subrange(start as int, n as int);
    let mut i: usize = start;
    let mut acc: u64 = 0;
    while i < n
        invariant
            start <= i <= n,
            start < n,
            n == s@.len(),
            d == s@.subrange(start as int, n as int),
            all_digits(s@.subrange(start as int, i as int)),
            acc == dec_val(s@.subrange(start as int, i as int)),
        decreases n - i,
    {
        let c = s.get_char(i);
        let u: u32 = c as u32;
        proof {
            assert(d[i - start] == s@[i as int]);
        }
        if u < 48 || u > 57 {
            return None;
        }
        let dv: u64 = (u - 48) as u64;
        let ghost pref = s@.subrange(start as int, i + 1);
        proof {
            assert(pref.subrange(0, pref.len() - 1) =~= s@.subrange(start as int, i as int));
            assert(pref[pref.len() - 1] == s@[i as int]);
            assert(dec_val(pref) == acc * 10 + dv);
        }
        if acc > 0x1999_9999_9999_9999u64 || (acc == 0x1999_9999_9999_9999u64 && dv > 5) {
            proof {
                if all_digits(d) {
                    assert(pref =~= d.subrange(0, i + 1 - start));
                    lemma_dec_val_prefix(d, i + 1 - start);
                }
            }
            return None;
        }
        acc = acc * 10 + dv;
        i = i + 1;
    }
    proof {
        assert(s@.subrange(start as int, i as int) =~= d);
    }
    Some(acc)
}

/// Parses a decimal numeral as `u64`, accepting one optional leading `+`, as
/// `str::parse::<u64>` does.
pub fn parse_u64(s: &str) -> (r: Option<u64>)
    ensures
        r is Some <==> is_u64_str(s@),
        r matches Some(n) ==> n == u64_str_val(s@),
{
    let n: usize = s.unicode_len();
    let mut start: usize = 0;
    if n > 0 && s.get_char(0) == '+' {
        start = 1;
    }
    proof {
        assert(unsigned_digits(s@) =~= s@.subrange(start as int, n as int));
    }
    parse_digits(s, start)
}

/// Parses a decimal numeral as `u8`, accepting one optional leading `+`, as
/// `str::parse::<u8>` does.
pub fn parse_u8(s: &str) -> (r: Option<u8>)
    ensures
        r is Some <==> is_u8_str(s@),
        r matches Some(n) ==> n == u8_str_val(s@),
{
    match parse_u64(s) {
        Some(n) => {
            if n <= 255 {
                Some(n as u8)
            } else {
                None
            }
        },
        None => None,
    }
}

/// Parses a decimal numeral as `i64`, accepting one optional leading `+` or
/// `-`, as `str::parse::<i64>` does.
pub fn parse_i64(s: &str) -> (r: Option<i64>)
    ensures
        r is Some <==> is_i64_str(s@),
        r matches Some(n) ==> n as int == i64_str_val(s@),
{
    let n: usize = s.unicode_len();
    let mut start: usize = 0;
    let mut neg = false;
    if n > 0 {
        let c = s.get_char(0);
        if c == '-' {
            neg = true;
            start = 1;
        } else if c == '+' {
            start = 1;
        }
    }
    proof {
        assert(signed_digits(s@) =~= s@.subrange(start as int, n as int));
        assert(neg == has_minus_sign(s@));
    }
    match parse_digits(s, start) {
        None => None,
        Some(v) => {
            if neg {
                if v <= 0x7fff_ffff_ffff_ffffu64 {
                    Some(-(v as i64))
                } else if v == 0x8000_0000_0000_0000u64 {
                    Some(i64::MIN)
                } else {
                    None
                }
            } else {
                if v <= 0x7fff_ffff_ffff_ffffu64 {
                    Some(v as i64)
                } else {
                    None
                }
            }
        },
    }
}

} // verus!
