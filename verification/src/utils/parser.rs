//! Reading numbers from the command line.
use vstd::prelude::*;

verus! {

pub open spec fn is_digit(c: char) -> bool {
    '0' <= c <= '9'
}

/// The number that a run of decimal digits stands for.
pub open spec fn value_of(digits: Seq<char>) -> nat
    decreases digits.len(),
{
    if digits.len() == 0 {
        0
    } else {
        value_of(digits.drop_last()) * 10 + (digits.last() as u32 - '0' as u32) as nat
    }
}

/// `s` without the plus sign it may start with.
pub open spec fn unsigned_part(s: Seq<char>) -> Seq<char> {
    if s.len() > 1 && s[0] == '+' {
        s.drop_first()
    } else {
        s
    }
}

/// What is wrong with a text that stands for no `usize`. The first character
/// from the left at which the reading fails decides.
pub open spec fn fault_of(s: Seq<char>) -> Option<Seq<char>> {
    if s.len() == 0 {
        Some("cannot parse integer from empty string"@)
    } else {
        fault_from(unsigned_part(s), 0)
    }
}

/// What is wrong with a text from character `i` on.
pub open spec fn fault_from(digits: Seq<char>, i: int) -> Option<Seq<char>>
    decreases digits.len() - i,
{
    if i < 0 || i >= digits.len() {
        None
    } else if !is_digit(digits[i]) {
        Some("invalid digit found in string"@)
    } else if value_of(digits.take(i + 1)) > usize::MAX {
        Some("number too large to fit in target type"@)
    } else {
        fault_from(digits, i + 1)
    }
}

/// Reads a positive `usize`: decimal digits, with a plus sign before them or
/// none.
pub fn parse_positive_usize(s: &str) -> (parsed: Result<usize, String>)
    ensures
        match parsed {
            Ok(n) => fault_of(s@) is None && n == value_of(unsigned_part(s@)) && n > 0,
            Err(message) => match fault_of(s@) {
                Some(fault) => message@ == "not a usize: "@ + fault,
                None => value_of(unsigned_part(s@)) == 0 && message@ == "must be > 0"@,
            },
        },
{
    let len: usize = s.unicode_len();
    if len == 0 {
        return Err("not a usize: ".to_string().concat("cannot parse integer from empty string"));
    }
    let start: usize = if len > 1 && s.get_char(0) == '+' {
        1
    } else {
        0
    };
    let ghost digits = unsigned_part(s@);
    assert(digits =~= s@.skip(start as int));
    let mut n: usize = 0;
    let mut i: usize = start;
    assert(digits.take(0) =~= Seq::empty());
    while i < len
        invariant
            len == s@.len(),
            start <= i <= len,
            digits == s@.skip(start as int),
            digits == unsigned_part(s@),
            len > 0,
            n == value_of(digits.take(i - start)),
            fault_of(s@) == fault_from(digits, i - start),
        decreases len - i,
    {
        let c: char = s.get_char(i);
        assert(c == digits[i - start]);
        if c < '0' || c > '9' {
            return Err("not a usize: ".to_string().concat("invalid digit found in string"));
        }
        let d: usize = (c as u32 - 48) as usize;
        assert(digits.take(i - start + 1).drop_last() =~= digits.take(i - start));
        if n > usize::MAX / 10 || n * 10 > usize::MAX - d {
            assert(value_of(digits.take(i - start + 1)) == n * 10 + d);
            return Err(
                "not a usize: ".to_string().concat("number too large to fit in target type"),
            );
        }
        n = n * 10 + d;
        i = i + 1;
    }
    assert(digits.take(i - start) =~= digits);
    if n == 0 {
        return Err("must be > 0".to_string());
    }
    Ok(n)
}

/// Whether a text is a run of at least one decimal digit.
pub open spec fn all_digits(s: Seq<char>) -> bool {
    s.len() > 0 && forall|i: int| 0 <= i < s.len() ==> is_digit(#[trigger] s[i])
}

/// The integer that a text stands for: decimal digits, with a sign before them or
/// none.
pub open spec fn integer_of(s: Seq<char>) -> Option<int> {
    if s.len() > 1 && s[0] == '-' {
        if all_digits(s.drop_first()) {
            Some(-value_of(s.drop_first()))
        } else {
            None
        }
    } else if all_digits(unsigned_part(s)) {
        Some(value_of(unsigned_part(s)) as int)
    } else {
        None
    }
}

/// A number, or the bound when it is greater.
pub open spec fn capped(n: nat) -> nat {
    if n > 0x1_0000_0000 {
        0x1_0000_0000
    } else {
        n
    }
}

/// Reads the decimal digits from character `start` on, as far as a bound.
fn read_digits(s: &str, start: usize) -> (parsed: Option<u64>)
    requires
        start <= s@.len(),
    ensures
        parsed is Some <==> all_digits(s@.skip(start as int)),
        parsed matches Some(n) ==> n == capped(value_of(s@.skip(start as int))),
{
    let len: usize = s.unicode_len();
    if start == len {
        return None;
    }
    let ghost digits = s@.skip(start as int);
    let mut n: u64 = 0;
    let mut i: usize = start;
    assert(digits.take(0) =~= Seq::empty());
    while i < len
        invariant
            len == s@.len(),
            start <= i <= len,
            digits == s@.skip(start as int),
            forall|k: int| 0 <= k < i - start ==> is_digit(#[trigger] digits[k]),
            n == capped(value_of(digits.take(i - start))),
        decreases len - i,
    {
        let c: char = s.get_char(i);
        assert(c == digits[i - start]);
        if c < '0' || c > '9' {
            assert(!is_digit(digits[i - start]));
            return None;
        }
        let d: u64 = (c as u32 - 48) as u64;
        assert(digits.take(i - start + 1).drop_last() =~= digits.take(i - start));
        n = n * 10 + d;
        if n > 0x1_0000_0000 {
            n = 0x1_0000_0000;
        }
        i = i + 1;
    }
    assert(digits.take(i - start) =~= digits);
    Some(n)
}

/// Reads an `i32`; nothing when the text stands for none.
pub fn read_i32(s: &str) -> (parsed: Option<i32>)
    ensures
        match integer_of(s@) {
            Some(n) => if i32::MIN <= n <= i32::MAX {
                parsed == Some(n as i32)
            } else {
                parsed is None
            },
            None => parsed is None,
        },
{
    let len: usize = s.unicode_len();
    assert(s@.skip(0) =~= s@);
    assert(len > 0 ==> s@.skip(1) =~= s@.drop_first());
    if len > 1 && s.get_char(0) == '-' {
        match read_digits(s, 1) {
            Some(n) => if n <= 0x8000_0000 {
                Some((-(n as i64)) as i32)
            } else {
                None
            },
            None => None,
        }
    } else {
        let start: usize = if len > 1 && s.get_char(0) == '+' {
            1
        } else {
            0
        };
        match read_digits(s, start) {
            Some(n) => if n <= 0x7FFF_FFFF {
                Some(n as i32)
            } else {
                None
            },
            None => None,
        }
    }
}

}
