use vstd::prelude::*;

use crate::text::chars_of;

verus! {

/// The character of a decimal digit.
pub open spec fn digit(d: int) -> char {
    (48 + d) as char
}

/// The decimal digits of a number, without leading zeros.
pub open spec fn digits(n: nat) -> Seq<char>
    decreases n,
{
    if n < 10 {
        seq![digit(n as int)]
    } else {
        digits(n / 10).push(digit((n % 10) as int))
    }
}

/// The decimal text of an integer.
pub open spec fn decimal(i: int) -> Seq<char> {
    if i < 0 {
        seq!['-'] + digits((-i) as nat)
    } else {
        digits(i as nat)
    }
}

fn digit_char(d: u64) -> (r: char)
    requires
        d < 10,
    ensures
        r == digit(d as int),
{
    (48u8 + d as u8) as char
}

/// Appends the decimal digits of `n`.
fn push_digits(out: &mut String, n: u64)
    ensures
        final(out)@ == old(out)@ + digits(n as nat),
    decreases n,
{
    if n >= 10 {
        push_digits(out, n / 10);
    }
    out.push(digit_char(n % 10));
    assert(out@ =~= old(out)@ + digits(n as nat));
}

/// The decimal text of an integer.
pub fn i64_text(i: i64) -> (r: String)
    ensures
        r@ == decimal(i as int),
{
    let mut out = String::new();
    if i < 0 {
        out.push('-');
        push_digits(&mut out, (-(i as i128)) as u64);
        assert(out@ =~= decimal(i as int));
    } else {
        push_digits(&mut out, i as u64);
        assert(out@ =~= decimal(i as int));
    }
    out
}

/// The decimal text of a length.
pub fn usize_text(n: usize) -> (r: String)
    ensures
        r@ == decimal(n as int),
{
    let mut out = String::new();
    push_digits(&mut out, n as u64);
    assert(out@ =~= decimal(n as int));
    out
}

/// Whether `c` is an ASCII decimal digit.
pub open spec fn is_digit(c: char) -> bool {
    '0' <= c <= '9'
}

/// Whether all characters are ASCII decimal digits, and there is at least one.
pub open spec fn is_number(s: Seq<char>) -> bool {
    s.len() > 0 && forall|i: int| 0 <= i < s.len() ==> is_digit(#[trigger] s[i])
}

/// The number that a row of decimal digits stands for.
pub open spec fn number(s: Seq<char>) -> int
    decreases s.len(),
{
    if s.len() == 0 {
        0
    } else {
        10 * number(s.drop_last()) + (s.last() as int - 48)
    }
}

/// `s` without the sign that it begins with.
pub open spec fn unsigned_part(s: Seq<char>) -> Seq<char> {
    if s.len() > 0 && (s[0] == '-' || s[0] == '+') {
        s.skip(1)
    } else {
        s
    }
}

/// The integer that a text stands for: an optional sign, then decimal digits.
pub open spec fn integer(s: Seq<char>) -> Option<int> {
    if is_number(unsigned_part(s)) {
        if s[0] == '-' {
            Some(-number(unsigned_part(s)))
        } else {
            Some(number(unsigned_part(s)))
        }
    } else {
        None
    }
}

/// The `i64` that a text stands for, where it stands for one.
pub open spec fn i64_of(s: Seq<char>) -> Option<i64> {
    match integer(s) {
        Some(i) => if i64::MIN <= i <= i64::MAX {
            Some(i as i64)
        } else {
            None
        },
        None => None,
    }
}

/// The `u32` that a text stands for, where it stands for one; a minus sign is not accepted.
pub open spec fn u32_of(s: Seq<char>) -> Option<u32> {
    match integer(s) {
        Some(i) => if s[0] != '-' && i <= u32::MAX {
            Some(i as u32)
        } else {
            None
        },
        None => None,
    }
}

/// The value of `s[from..]` as a row of digits; `Some(None)` where it is above `2^63`, `None` where it is
/// no row of digits.
fn magnitude(s: &Vec<char>, from: usize) -> (r: Option<Option<u64>>)
    requires
        from <= s.len(),
    ensures
        match r {
            Some(Some(n)) => is_number(s@.skip(from as int)) && number(s@.skip(from as int)) == n
                && n <= 0x8000_0000_0000_0000,
            Some(None) => is_number(s@.skip(from as int)) && number(s@.skip(from as int))
                > 0x8000_0000_0000_0000,
            None => !is_number(s@.skip(from as int)),
        },
{
    let ghost t = s@.skip(from as int);
    if s.len() == from {
        return None;
    }
    let mut acc: u64 = 0;
    let mut big = false;
    let mut i: usize = from;
    while i < s.len()
        invariant
            from <= i <= s.len(),
            t == s@.skip(from as int),
            forall|j: int| 0 <= j < i - from ==> is_digit(#[trigger] t[j]),
            acc <= 0x8000_0000_0000_0000,
            !big ==> number(t.take(i - from)) == acc,
            big ==> number(t.take(i - from)) > 0x8000_0000_0000_0000,
        decreases s.len() - i,
    {
        let c = s[i];
        assert(c == t[i - from]);
        if !('0' <= c && c <= '9') {
            assert(!is_digit(t[i - from]));
            return None;
        }
        assert(t.take(i - from + 1).drop_last() =~= t.take(i - from));
        assert(number(t.take(i - from + 1)) == 10 * number(t.take(i - from)) + (c as int - 48));
        let d: u64 = (c as u32 - 48) as u64;
        if !big {
            if acc > 0x0ccc_cccc_cccc_cccc || (acc == 0x0ccc_cccc_cccc_cccc && d > 8) {
                big = true;
            } else {
                acc = acc * 10 + d;
            }
        }
        i = i + 1;
    }
    assert(t.take(s.len() - from) =~= t);
    if big {
        Some(None)
    } else {
        Some(Some(acc))
    }
}

/// The `i64` that a text stands for, where it stands for one.
pub fn parse_i64(s: &str) -> (r: Option<i64>)
    ensures
        r == i64_of(s@),
{
    let v = chars_of(s);
    if v.len() == 0 {
        return None;
    }
    let signed = v[0] == '-' || v[0] == '+';
    assert(s@.skip(0) =~= s@);
    let from: usize = if signed {
        1
    } else {
        0
    };
    match magnitude(&v, from) {
        Some(Some(n)) => {
            if v[0] == '-' {
                Some((-(n as i128)) as i64)
            } else if n <= 0x7fff_ffff_ffff_ffff {
                Some(n as i64)
            } else {
                None
            }
        },
        _ => None,
    }
}

/// The `u32` that a text stands for, where it stands for one.
pub fn parse_u32(s: &str) -> (r: Option<u32>)
    ensures
        r == u32_of(s@),
{
    let v = chars_of(s);
    if v.len() == 0 {
        return None;
    }
    if v[0] == '-' {
        return None;
    }
    assert(s@.skip(0) =~= s@);
    let from: usize = if v[0] == '+' {
        1
    } else {
        0
    };
    match magnitude(&v, from) {
        Some(Some(n)) => {
            if n <= 0xffff_ffff {
                Some(n as u32)
            } else {
                None
            }
        },
        _ => None,
    }
}

proof fn lemma_digits(n: nat)
    ensures
        is_number(digits(n)),
        number(digits(n)) == n,
    decreases n,
{
    let s = digits(n);
    if n >= 10 {
        lemma_digits(n / 10);
        assert(s.drop_last() =~= digits(n / 10));
        assert forall|i: int| 0 <= i < s.len() implies is_digit(#[trigger] s[i]) by {
            if i < s.len() - 1 {
                assert(is_digit(digits(n / 10)[i]));
            }
        }
    } else {
        assert(s.drop_last() =~= Seq::<char>::empty());
        assert(number(s.drop_last()) == 0);
    }
}

/// Reading the decimal text of an integer gives the integer back.
pub proof fn law_decimal_read_back(i: i64)
    ensures
        i64_of(decimal(i as int)) == Some(i),
{
    if i < 0 {
        lemma_digits((-i) as nat);
        assert(decimal(i as int).skip(1) =~= digits((-i) as nat));
    } else {
        lemma_digits(i as nat);
        assert(is_digit(digits(i as nat)[0]));
    }
}

} // verus!
