//! Base-10 rendering and parsing of the signed integer fields of a record.
//!
//! The canonical rendering ([`int_repr`]) has no leading zeros (aside from
//! the literal value `0`) and a leading `-` for negative values. Parsing
//! ([`int_syntax_ok`], [`int_val`]) additionally accepts a leading `+` and
//! leading zeros, and rejects everything else, matching base-10 signed
//! integer syntax with no surrounding whitespace.
use crate::text::push_char;
use vstd::arithmetic::div_mod::lemma_fundamental_div_mod;
use vstd::prelude::*;

verus! {

/// Holds when `c` is a decimal digit.
pub open spec fn is_digit_char(c: char) -> bool {
    ||| c == '0'
    ||| c == '1'
    ||| c == '2'
    ||| c == '3'
    ||| c == '4'
    ||| c == '5'
    ||| c == '6'
    ||| c == '7'
    ||| c == '8'
    ||| c == '9'
}

/// The numeric value of a decimal digit character (0 for anything else).
pub open spec fn digit_val(c: char) -> int {
    match c {
        '0' => 0,
        '1' => 1,
        '2' => 2,
        '3' => 3,
        '4' => 4,
        '5' => 5,
        '6' => 6,
        '7' => 7,
        '8' => 8,
        '9' => 9,
        _ => 0,
    }
}

/// The decimal digit character for a value in `0..10` (`'9'` for anything
/// larger).
pub open spec fn digit_char(d: int) -> char {
    if d == 0 {
        '0'
    } else if d == 1 {
        '1'
    } else if d == 2 {
        '2'
    } else if d == 3 {
        '3'
    } else if d == 4 {
        '4'
    } else if d == 5 {
        '5'
    } else if d == 6 {
        '6'
    } else if d == 7 {
        '7'
    } else if d == 8 {
        '8'
    } else {
        '9'
    }
}

/// Holds when every character of `s` is a decimal digit.
pub open spec fn all_digits(s: Seq<char>) -> bool {
    forall|i: int| 0 <= i < s.len() ==> is_digit_char(s[i])
}

/// The value of a digit string read in base 10 (most significant first).
pub open spec fn digits_val(s: Seq<char>) -> int
    decreases s.len(),
{
    if s.len() == 0 {
        0
    } else {
        digits_val(s.drop_last()) * 10 + digit_val(s.last())
    }
}

/// The canonical digit string of a non-negative value: base 10, no leading
/// zeros aside from the value `0` itself.
pub open spec fn dec_digits(n: int) -> Seq<char>
    decreases n,
{
    if n < 10 {
        seq![digit_char(n)]
    } else {
        dec_digits(n / 10).push(digit_char(n % 10))
    }
}

/// The canonical rendering of a signed value: `-` followed by the digits of
/// the magnitude when negative, the bare digits otherwise.
pub open spec fn int_repr(v: int) -> Seq<char> {
    if v < 0 {
        seq!['-'] + dec_digits(-v)
    } else {
        dec_digits(v)
    }
}

/// Holds when `s` is a well-formed base-10 signed integer: an optional `+`
/// or `-` sign followed by at least one decimal digit, and nothing else.
pub open spec fn int_syntax_ok(s: Seq<char>) -> bool {
    if s.len() == 0 {
        false
    } else if s[0] == '+' || s[0] == '-' {
        s.len() > 1 && all_digits(s.drop_first())
    } else {
        all_digits(s)
    }
}

/// The signed value of a well-formed base-10 integer string.
pub open spec fn int_val(s: Seq<char>) -> int {
    if s.len() == 0 {
        0
    } else if s[0] == '-' {
        -digits_val(s.drop_first())
    } else if s[0] == '+' {
        digits_val(s.drop_first())
    } else {
        digits_val(s)
    }
}

/// Holds when `s` parses as an `i64`: well-formed syntax and a value in
/// range.
pub open spec fn i64_ok(s: Seq<char>) -> bool {
    int_syntax_ok(s) && i64::MIN <= int_val(s) <= i64::MAX
}

/// Holds when `s` parses as an `i32`: well-formed syntax and a value in
/// range.
pub open spec fn i32_ok(s: Seq<char>) -> bool {
    int_syntax_ok(s) && i32::MIN <= int_val(s) <= i32::MAX
}

/// A digit string never has a negative value.
pub proof fn lemma_digits_val_nonneg(s: Seq<char>)
    ensures
        digits_val(s) >= 0,
    decreases s.len(),
{
    if s.len() > 0 {
        lemma_digits_val_nonneg(s.drop_last());
    }
}

/// The canonical digit string of a non-negative value consists of digits
/// only, is non-empty, and reads back as that value.
pub proof fn lemma_dec_digits(n: int)
    requires
        n >= 0,
    ensures
        dec_digits(n).len() >= 1,
        all_digits(dec_digits(n)),
        digits_val(dec_digits(n)) == n,
    decreases n,
{
    if n < 10 {
        let s = seq![digit_char(n)];
        assert(s.drop_last() =~= Seq::<char>::empty());
        assert(digits_val(s) == digits_val(s.drop_last()) * 10 + digit_val(s.last()));
    } else {
        lemma_dec_digits(n / 10);
        let s = dec_digits(n);
        assert(s.drop_last() =~= dec_digits(n / 10));
        assert(s.last() == digit_char(n % 10));
        assert(digit_val(digit_char(n % 10)) == n % 10);
        assert(digits_val(s) == (n / 10) * 10 + n % 10);
    }
}

/// The canonical rendering of a value reads back as exactly that value, and
/// contains neither NUL nor line-break characters.
pub proof fn lemma_int_repr_round_trip(v: int)
    ensures
        int_syntax_ok(int_repr(v)),
        int_val(int_repr(v)) == v,
        forall|i: int|
            0 <= i < int_repr(v).len() ==> (#[trigger] int_repr(v)[i] != '\0' && int_repr(v)[i]
                != '\n' && int_repr(v)[i] != '\r'),
{
    if v < 0 {
        lemma_dec_digits(-v);
        let s = int_repr(v);
        assert(s.drop_first() =~= dec_digits(-v));
        assert(s[0] == '-');
        assert(int_val(s) == -digits_val(dec_digits(-v)));
    } else {
        lemma_dec_digits(v);
        let s = int_repr(v);
        assert(s[0] != '-' && s[0] != '+');
        assert(int_val(s) == digits_val(dec_digits(v)));
    }
}

/// The digit character for a value in `0..10`.
fn digit_char_of(d: u8) -> (c: char)
    requires
        d < 10,
    ensures
        c == digit_char(d as int),
{
    if d == 0 {
        '0'
    } else if d == 1 {
        '1'
    } else if d == 2 {
        '2'
    } else if d == 3 {
        '3'
    } else if d == 4 {
        '4'
    } else if d == 5 {
        '5'
    } else if d == 6 {
        '6'
    } else if d == 7 {
        '7'
    } else if d == 8 {
        '8'
    } else {
        '9'
    }
}

/// The numeric value of a digit character, or `None` for any other
/// character.
fn digit_of(c: char) -> (r: Option<u8>)
    ensures
        match r {
            Some(d) => is_digit_char(c) && d as int == digit_val(c) && d < 10,
            None => !is_digit_char(c),
        },
{
    match c {
        '0' => Some(0u8),
        '1' => Some(1u8),
        '2' => Some(2u8),
        '3' => Some(3u8),
        '4' => Some(4u8),
        '5' => Some(5u8),
        '6' => Some(6u8),
        '7' => Some(7u8),
        '8' => Some(8u8),
        '9' => Some(9u8),
        _ => None,
    }
}

/// Appends the canonical base-10 digits of `n` to `out`.
pub fn push_decimal_u64(out: &mut String, n: u64)
    ensures
        final(out)@ == old(out)@ + dec_digits(n as int),
    decreases n,
{
    if n < 10 {
        push_char(out, digit_char_of(n as u8));
        proof {
            assert(out@ =~= old(out)@ + dec_digits(n as int));
        }
    } else {
        push_decimal_u64(out, n / 10);
        push_char(out, digit_char_of((n % 10) as u8));
        proof {
            assert(dec_digits(n as int) == dec_digits(n as int / 10).push(
                digit_char(n as int % 10),
            ));
            assert(out@ =~= old(out)@ + dec_digits(n as int));
        }
    }
}

/// Appends the canonical rendering of `v` to `out`: base 10, a leading `-`
/// when negative, no leading zeros.
pub fn push_decimal_i64(out: &mut String, v: i64)
    ensures
        final(out)@ == old(out)@ + int_repr(v as int),
{
    if v >= 0 {
        push_decimal_u64(out, v as u64);
    } else {
        push_char(out, '-');
        let mag: u64 = ((-(v + 1)) as u64) + 1;
        proof {
            assert(mag as int == -(v as int));
        }
        push_decimal_u64(out, mag);
        proof {
            assert(out@ =~= old(out)@ + int_repr(v as int));
        }
    }
}

/// The canonical rendering of `v` as an owned string.
pub fn decimal_string_i64(v: i64) -> (r: String)
    ensures
        r@ == int_repr(v as int),
{
    let mut out = String::new();
    push_decimal_i64(&mut out, v);
    proof {
        assert(out@ =~= int_repr(v as int));
    }
    out
}

/// The canonical rendering of `v` as an owned string.
pub fn decimal_string_i32(v: i32) -> (r: String)
    ensures
        r@ == int_repr(v as int),
{
    decimal_string_i64(v as i64)
}

/// Parses `f` as a base-10 signed 64-bit integer: an optional sign, then at
/// least one digit, nothing else, and a value in range; returns `None`
/// otherwise.
pub fn parse_i64_field(f: &Vec<char>) -> (r: Option<i64>)
    ensures
        match r {
            Some(v) => i64_ok(f@) && v as int == int_val(f@),
            None => !i64_ok(f@),
        },
{
    let ghost s = f@;
    let n = f.len();
    if n == 0 {
        return None;
    }
    let first = f[0];
    let neg = first == '-';
    let signed = neg || first == '+';
    let start: usize = if signed {
        1
    } else {
        0
    };
    if n == start {
        return None;
    }
    let mut i = start;
    let mut mag: u64 = 0;
    let mut too_big = false;
    while i < n
        invariant
            start <= i <= n,
            start < n,
            n == s.len(),
            s == f@,
            signed ==> start == 1 && (s[0] == '+' || s[0] == '-'),
            !signed ==> start == 0 && s[0] != '+' && s[0] != '-',
            all_digits(s.subrange(start as int, i as int)),
            !too_big ==> mag as int == digits_val(s.subrange(start as int, i as int)),
            too_big ==> digits_val(s.subrange(start as int, i as int)) > u64::MAX,
        decreases n - i,
    {
        let c = f[i];
        match digit_of(c) {
            None => {
                proof {
                    if signed {
                        assert(s.drop_first()[i - 1] == s[i as int]);
                        assert(!all_digits(s.drop_first()));
                    }
                }
                return None;
            },
            Some(d) => {
                proof {
                    let p = s.subrange(start as int, i as int);
                    let q = s.subrange(start as int, i as int + 1);
                    assert(q.drop_last() =~= p);
                    assert(q.last() == s[i as int]);
                    assert(digits_val(q) == digits_val(p) * 10 + digit_val(s[i as int]));
                    lemma_digits_val_nonneg(p);
                }
                if too_big {
                } else if mag > (u64::MAX - d as u64) / 10 {
                    proof {
                        lemma_fundamental_div_mod(u64::MAX - digit_val(s[i as int]), 10);
                    }
                    too_big = true;
                } else {
                    proof {
                        lemma_fundamental_div_mod(u64::MAX - digit_val(s[i as int]), 10);
                    }
                    mag = mag * 10 + d as u64;
                }
                i = i + 1;
            },
        }
    }
    proof {
        if signed {
            assert(s.drop_first() =~= s.subrange(1, n as int));
        } else {
            assert(s =~= s.subrange(0, n as int));
        }
    }
    if too_big {
        return None;
    }
    if neg {
        if mag <= i64::MAX as u64 {
            Some(-(mag as i64))
        } else if mag == i64::MAX as u64 + 1 {
            Some(i64::MIN)
        } else {
            None
        }
    } else {
        if mag <= i64::MAX as u64 {
            Some(mag as i64)
        } else {
            None
        }
    }
}

/// Parses `f` as a base-10 signed 32-bit integer, as
/// [`parse_i64_field`] does but with the 32-bit range.
pub fn parse_i32_field(f: &Vec<char>) -> (r: Option<i32>)
    ensures
        match r {
            Some(v) => i32_ok(f@) && v as int == int_val(f@),
            None => !i32_ok(f@),
        },
{
    match parse_i64_field(f) {
        Some(v) => {
            if i32::MIN as i64 <= v && v <= i32::MAX as i64 {
                Some(v as i32)
            } else {
                None
            }
        },
        None => None,
    }
}

} // verus!
