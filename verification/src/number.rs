//! The reading of numbers as the standard library reads them.

use vstd::prelude::*;

verus! {

/// `char::from_u32`, from the standard library: the character with the
/// given code, if the code is a Unicode scalar value.
pub assume_specification[ char::from_u32 ](v: u32) -> (r: Option<char>)
    ensures
        r == if v <= 0xD7FF || (0xE000 <= v <= 0x10FFFF) {
            Some(v as char)
        } else {
            None::<char>
        },
;

/// The value of the digit `c` in a number of the given radix.
pub open spec fn digit_value(c: char, radix: nat) -> Option<nat> {
    let v: int = if '0' <= c <= '9' {
        c as int - '0' as int
    } else if 'a' <= c <= 'z' {
        c as int - 'a' as int + 10
    } else if 'A' <= c <= 'Z' {
        c as int - 'A' as int + 10
    } else {
        -1
    };
    if 0 <= v < radix {
        Some(v as nat)
    } else {
        None
    }
}

/// The number that the digits `s` write in the given radix; none if one of
/// them is no digit of that radix.
pub open spec fn digits_value(s: Seq<char>, radix: nat) -> Option<nat>
    decreases s.len(),
{
    if s.len() == 0 {
        Some(0)
    } else {
        match (digits_value(s.drop_last(), radix), digit_value(s.last(), radix)) {
            (Some(v), Some(d)) => Some(v * radix + d),
            _ => None,
        }
    }
}

/// The number that `s` writes: an optional plus sign and then at least one
/// digit, nothing else; none if it is not written so or does not fit into
/// 32 bits.
pub open spec fn number_value(s: Seq<char>, radix: nat) -> Option<u32> {
    let digits = if s.len() > 0 && s[0] == '+' {
        s.drop_first()
    } else {
        s
    };
    if digits.len() == 0 {
        None
    } else {
        match digits_value(digits, radix) {
            Some(v) => if v <= u32::MAX {
                Some(v as u32)
            } else {
                None
            },
            None => None,
        }
    }
}

/// The character whose code `s` writes in the given radix.
pub open spec fn numeric_char(s: Seq<char>, radix: nat) -> Option<char> {
    match number_value(s, radix) {
        Some(v) => if v <= 0xD7FF || (0xE000 <= v <= 0x10FFFF) {
            Some(v as char)
        } else {
            None
        },
        None => None,
    }
}

/// The number that `s` writes: an optional sign and then at least one
/// digit, nothing else; none if it is not written so or does not fit into
/// 32 bits with a sign.
pub open spec fn int_value(s: Seq<char>, radix: nat) -> Option<i32> {
    let signed = s.len() > 0 && (s[0] == '+' || s[0] == '-');
    let digits = if signed {
        s.drop_first()
    } else {
        s
    };
    if digits.len() == 0 {
        None
    } else {
        match digits_value(digits, radix) {
            Some(v) => if s[0] == '-' {
                if v <= 0x8000_0000 {
                    Some((-v) as i32)
                } else {
                    None
                }
            } else {
                if v <= 0x7FFF_FFFF {
                    Some(v as i32)
                } else {
                    None
                }
            },
            None => None,
        }
    }
}

/// The digits `s`, as far as they write a number up to `limit`.
pub open spec fn bounded_value(s: Seq<char>, radix: nat, limit: nat) -> Option<u64> {
    match digits_value(s, radix) {
        Some(v) => if v <= limit {
            Some(v as u64)
        } else {
            None
        },
        None => None,
    }
}

/// Digits that write a number write no smaller one when more digits follow.
proof fn lemma_digits_grow(s: Seq<char>, k: int, radix: nat)
    requires
        0 <= k <= s.len(),
        radix >= 1,
        digits_value(s, radix) is Some,
    ensures
        digits_value(s.take(k), radix) is Some,
        digits_value(s.take(k), radix)->0 <= digits_value(s, radix)->0,
    decreases s.len() - k,
{
    if k == s.len() {
        assert(s.take(k) =~= s);
    } else {
        lemma_digits_grow(s.drop_last(), k, radix);
        assert(s.drop_last().take(k) =~= s.take(k));
        let v = digits_value(s.drop_last(), radix)->0;
        assert(v * radix >= v) by (nonlinear_arith)
            requires
                radix >= 1,
                v >= 0,
        ;
    }
}

/// The value of the digit `c` in a number of the given radix.
fn digit_of(c: char, radix: u32) -> (r: Option<u32>)
    requires
        radix <= 36,
    ensures
        match r {
            Some(d) => digit_value(c, radix as nat) == Some(d as nat) && d < radix,
            None => digit_value(c, radix as nat) is None,
        },
{
    let v: u32 = if c >= '0' && c <= '9' {
        (c as u32) - ('0' as u32)
    } else if c >= 'a' && c <= 'z' {
        (c as u32) - ('a' as u32) + 10
    } else if c >= 'A' && c <= 'Z' {
        (c as u32) - ('A' as u32) + 10
    } else {
        return None;
    };
    if v < radix {
        Some(v)
    } else {
        None
    }
}

/// Reads the digits of `chars` from `from` up to `to` as a number of the
/// given radix that is at most `limit`.
fn parse_digits(chars: &Vec<char>, from: usize, to: usize, radix: u32, limit: u64) -> (r: Option<u64>)
    requires
        from <= to <= chars.len(),
        1 <= radix <= 36,
        limit <= 0xFFFF_FFFF,
    ensures
        r == bounded_value(chars@.subrange(from as int, to as int), radix as nat, limit as nat),
{
    let ghost digits = chars@.subrange(from as int, to as int);
    let mut i = from;
    let mut value: u64 = 0;
    proof {
        assert(digits.take(0) =~= Seq::<char>::empty());
    }
    while i < to
        invariant
            from <= i <= to <= chars.len(),
            1 <= radix <= 36,
            limit <= 0xFFFF_FFFF,
            digits == chars@.subrange(from as int, to as int),
            digits_value(digits.take(i - from), radix as nat) == Some(value as nat),
            value <= limit,
        decreases to - i,
    {
        proof {
            assert(digits.take(i - from + 1).drop_last() =~= digits.take(i - from));
            assert(digits.take(i - from + 1).last() == chars@[i as int]);
        }
        let next = match digit_of(chars[i], radix) {
            Some(d) => {
                assert(value * radix + d <= 0xFFFF_FFFF * 36 + 36) by (nonlinear_arith)
                    requires
                        value <= 0xFFFF_FFFF,
                        radix <= 36,
                        d < 36,
                ;
                value * (radix as u64) + (d as u64)
            },
            None => {
                proof {
                    if digits_value(digits, radix as nat) is Some {
                        lemma_digits_grow(digits, i - from + 1, radix as nat);
                    }
                }
                return None;
            },
        };
        if next > limit {
            proof {
                if digits_value(digits, radix as nat) is Some {
                    lemma_digits_grow(digits, i - from + 1, radix as nat);
                }
            }
            return None;
        }
        value = next;
        i = i + 1;
    }
    proof {
        assert(digits.take(to - from) =~= digits);
    }
    Some(value)
}

/// Reads the number that the characters of `chars` from `from` up to `to`
/// write in the given radix, as `u32::from_str_radix` reads it.
pub fn parse_u32(chars: &Vec<char>, from: usize, to: usize, radix: u32) -> (r: Option<u32>)
    requires
        from <= to <= chars.len(),
        1 <= radix <= 36,
    ensures
        r == number_value(chars@.subrange(from as int, to as int), radix as nat),
{
    let ghost s = chars@.subrange(from as int, to as int);
    let mut start = from;
    if start < to && chars[start] == '+' {
        start = start + 1;
    }
    if start == to {
        return None;
    }
    proof {
        let digits = chars@.subrange(start as int, to as int);
        if start > from {
            assert(s[0] == '+');
            assert(s.drop_first() =~= digits);
        } else {
            assert(s =~= digits);
            assert(s[0] == chars@[from as int]);
        }
    }
    match parse_digits(chars, start, to, radix, 0xFFFF_FFFF) {
        Some(v) => Some(v as u32),
        None => None,
    }
}

/// Reads the number that the characters of `chars` from `from` up to `to`
/// write in the given radix, as `i32::from_str_radix` reads it.
pub fn parse_i32(chars: &Vec<char>, from: usize, to: usize, radix: u32) -> (r: Option<i32>)
    requires
        from <= to <= chars.len(),
        1 <= radix <= 36,
    ensures
        r == int_value(chars@.subrange(from as int, to as int), radix as nat),
{
    let ghost s = chars@.subrange(from as int, to as int);
    let mut start = from;
    let mut negative = false;
    if start < to && (chars[start] == '+' || chars[start] == '-') {
        negative = chars[start] == '-';
        start = start + 1;
    }
    if start == to {
        return None;
    }
    proof {
        let digits = chars@.subrange(start as int, to as int);
        assert(s[0] == chars@[from as int]);
        if start > from {
            assert(s.drop_first() =~= digits);
        } else {
            assert(s =~= digits);
        }
    }
    if negative {
        match parse_digits(chars, start, to, radix, 0x8000_0000) {
            Some(v) => {
                let m: i64 = -(v as i64);
                Some(m as i32)
            },
            None => None,
        }
    } else {
        match parse_digits(chars, start, to, radix, 0x7FFF_FFFF) {
            Some(v) => Some(v as i32),
            None => None,
        }
    }
}

/// Reads the character whose code the characters of `chars` from `from` up
/// to `to` write in the given radix.
pub fn parse_char(chars: &Vec<char>, from: usize, to: usize, radix: u32) -> (r: Option<char>)
    requires
        from <= to <= chars.len(),
        1 <= radix <= 36,
    ensures
        r == numeric_char(chars@.subrange(from as int, to as int), radix as nat),
{
    match parse_u32(chars, from, to, radix) {
        Some(v) => char::from_u32(v),
        None => None,
    }
}

} // verus!
