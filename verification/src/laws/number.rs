use vstd::prelude::*;

use crate::number::{decimal, digits, i64_of, integer, is_number, number, u32_of, unsigned_part};

verus! {

/// The decimal text of a number: one digit is itself, ten times a number puts a digit behind it,
/// and a minus stands before what is below zero.
pub proof fn law_decimal(n: nat, d: int)
    requires
        0 <= d < 10,
    ensures
        decimal(d) == seq![(48 + d) as char],
        n > 0 ==> decimal(10 * n + d) == decimal(n as int).push((48 + d) as char),
        n > 0 ==> decimal(-(n as int)) == seq!['-'] + decimal(n as int),
{
    if n > 0 {
        let m = (10 * n + d) as nat;
        assert(m / 10 == n && m % 10 == d as nat);
        assert(digits(m) == digits(n).push((48 + d) as char));
    }
}

/// Reading digits: a digit alone is its value, and one more digit makes ten times the number and
/// the digit.
pub proof fn law_digits_read(s: Seq<char>, c: char)
    requires
        '0' <= c <= '9',
    ensures
        integer(seq![c]) == Some(c as int - 48),
        s.len() > 0 && '0' <= s[0] <= '9' && integer(s) is Some ==> integer(s.push(c)) == Some(
            10 * integer(s)->0 + (c as int - 48),
        ),
{
    let one = seq![c];
    assert(unsigned_part(one) == one);
    assert(one.drop_last() =~= Seq::<char>::empty());
    assert(number(one.drop_last()) == 0);
    if s.len() > 0 && '0' <= s[0] <= '9' && integer(s) is Some {
        let t = s.push(c);
        assert(t[0] == s[0]);
        assert(unsigned_part(s) == s);
        assert(unsigned_part(t) == t);
        assert(is_number(s));
        assert forall|i: int| 0 <= i < t.len() implies '0' <= #[trigger] t[i] <= '9' by {
            if i < s.len() {
                assert(t[i] == s[i]);
            }
        }
        assert(t.drop_last() =~= s);
    }
}

/// A sign before digits: a minus turns the number round, a plus leaves it.
pub proof fn law_sign_read(s: Seq<char>)
    requires
        s.len() > 0,
        '0' <= s[0] <= '9',
    ensures
        integer(seq!['+'] + s) == integer(s),
        integer(s) matches Some(n) ==> integer(seq!['-'] + s) == Some(-n),
        integer(s) is None ==> integer(seq!['-'] + s) is None,
{
    assert((seq!['+'] + s).skip(1) =~= s);
    assert((seq!['-'] + s).skip(1) =~= s);
    assert(unsigned_part(s) == s);
}

/// A text with anything but digits behind its first character is no number, and neither is an empty
/// one.
pub proof fn law_no_number(s: Seq<char>, k: int)
    requires
        1 <= k < s.len(),
        !('0' <= s[k] <= '9'),
    ensures
        integer(s) is None,
        integer(Seq::empty()) is None,
{
    let u = unsigned_part(s);
    if s[0] == '-' || s[0] == '+' {
        assert(u[k - 1] == s[k]);
    } else {
        assert(u[k] == s[k]);
    }
}

/// What a text stands for is kept where it fits, and given up where it does not.
pub proof fn law_numbers_fit(s: Seq<char>)
    ensures
        i64_of(s) matches Some(i) ==> integer(s) == Some(i as int),
        integer(s) matches Some(n) ==> (i64_of(s) is Some <==> -9223372036854775808 <= n
            <= 9223372036854775807),
        u32_of(s) matches Some(i) ==> integer(s) == Some(i as int) && s[0] != '-',
        integer(s) matches Some(n) ==> (u32_of(s) is Some <==> s[0] != '-' && n <= 4294967295),
        integer(s) is None ==> i64_of(s) is None && u32_of(s) is None,
{
    if integer(s) is Some && s[0] != '-' {
        lemma_not_negative(unsigned_part(s));
    }
}

proof fn lemma_not_negative(s: Seq<char>)
    requires
        forall|i: int| 0 <= i < s.len() ==> '0' <= #[trigger] s[i] <= '9',
    ensures
        number(s) >= 0,
    decreases s.len(),
{
    if s.len() > 0 {
        assert('0' <= s[s.len() - 1] <= '9');
        lemma_not_negative(s.drop_last());
    }
}

} // verus!
