//! Text helpers: decimal rendering of integers and string building.

use vstd::prelude::*;
use vstd::string::*;

verus! {

/// The character of a decimal digit.
pub open spec fn digit_char(d: nat) -> char {
    (48 + d) as char
}

/// The decimal digits of a natural number, most significant first, without
/// leading zeros (zero itself is the single digit `0`).
pub open spec fn nat_decimal(n: nat) -> Seq<char>
    decreases n,
{
    if n < 10 {
        seq![digit_char(n)]
    } else {
        nat_decimal(n / 10).push(digit_char(n % 10))
    }
}

/// The decimal text of an integer, as `Display` writes it: a minus sign for
/// negative values, then the digits of the magnitude.
pub open spec fn int_decimal(i: int) -> Seq<char> {
    if i < 0 {
        seq!['-'] + nat_decimal((-i) as nat)
    } else {
        nat_decimal(i as nat)
    }
}

proof fn nat_decimal_not_empty(n: nat)
    ensures
        nat_decimal(n).len() >= 1,
    decreases n,
{
    if n >= 10 {
        nat_decimal_not_empty(n / 10);
    }
}

/// Different numbers have different decimal texts, so a counter's decimal
/// texts name distinct files.
pub proof fn nat_decimal_injective(a: nat, b: nat)
    ensures
        nat_decimal(a) == nat_decimal(b) ==> a == b,
    decreases a,
{
    if nat_decimal(a) == nat_decimal(b) {
        nat_decimal_not_empty(a / 10);
        nat_decimal_not_empty(b / 10);
        if a < 10 && b < 10 {
            assert(nat_decimal(a)[0] == digit_char(a));
        } else if a >= 10 && b >= 10 {
            let la = nat_decimal(a).len() - 1;
            assert(nat_decimal(a)[la] == digit_char(a % 10));
            assert(nat_decimal(b)[la] == digit_char(b % 10));
            assert(nat_decimal(a / 10) =~= nat_decimal(a).drop_last());
            assert(nat_decimal(b / 10) =~= nat_decimal(b).drop_last());
            nat_decimal_injective(a / 10, b / 10);
        } else {
            assert(nat_decimal(a).len() != nat_decimal(b).len());
        }
    }
}

/// Whether every character of a text is a decimal digit.
pub open spec fn all_digits(s: Seq<char>) -> bool {
    forall|i: int| 0 <= i < s.len() ==> '0' <= #[trigger] s[i] <= '9'
}

/// The number a text of decimal digits spells, read left to right.
pub open spec fn decimal_value(s: Seq<char>) -> int
    decreases s.len(),
{
    if s.len() == 0 {
        0
    } else {
        decimal_value(s.drop_last()) * 10 + (s.last() as int - 48)
    }
}

/// The number a text spells: a leading `-` negates the digits after it.
pub open spec fn signed_decimal_value(s: Seq<char>) -> int {
    if s.len() > 0 && s[0] == '-' {
        -decimal_value(s.drop_first())
    } else {
        decimal_value(s)
    }
}

/// Reading the decimal text of a number back gives the number, and the text
/// holds only digits.
pub proof fn nat_decimal_reads_back(n: nat)
    ensures
        all_digits(nat_decimal(n)),
        decimal_value(nat_decimal(n)) == n,
    decreases n,
{
    let c = digit_char(n % 10);
    assert(c as int == 48 + n % 10);
    if n < 10 {
        let s = nat_decimal(n);
        assert(s.drop_last() =~= Seq::<char>::empty());
        assert(decimal_value(Seq::<char>::empty()) == 0);
        assert(s.last() == c);
        assert(decimal_value(s) == decimal_value(s.drop_last()) * 10 + (c as int - 48));
    } else {
        nat_decimal_reads_back(n / 10);
        let s = nat_decimal(n);
        assert(s.drop_last() =~= nat_decimal(n / 10));
        assert(s.last() == c);
        assert((n / 10) * 10 + n % 10 == n);
        assert(decimal_value(s) == decimal_value(s.drop_last()) * 10 + (c as int - 48));
        assert forall|i: int| 0 <= i < s.len() implies '0' <= #[trigger] s[i] <= '9' by {
            if i < s.len() - 1 {
                assert(s[i] == nat_decimal(n / 10)[i]);
            }
        }
    }
}

/// Reading the decimal text of an integer back, sign included, gives the
/// integer.
pub proof fn int_decimal_reads_back(i: int)
    ensures
        signed_decimal_value(int_decimal(i)) == i,
{
    if i < 0 {
        nat_decimal_reads_back((-i) as nat);
        assert((seq!['-'] + nat_decimal((-i) as nat)).drop_first() =~= nat_decimal((-i) as nat));
    } else {
        nat_decimal_reads_back(i as nat);
        let s = nat_decimal(i as nat);
        nat_decimal_not_empty(i as nat);
        assert('0' <= s[0] <= '9');
    }
}

/// Appends one character to a string (`String::push`).
#[verifier::external_body]
pub(crate) fn push_char(s: &mut String, c: char)
    ensures
        final(s)@ == old(s)@.push(c),
{
    s.push(c);
}

/// Whether two strings hold the same characters (`==` on `str`).
#[verifier::external_body]
pub(crate) fn str_eq(a: &str, b: &str) -> (r: bool)
    ensures
        r == (a@ == b@),
{
    a == b
}

/// Appends `t` to `s`.
pub fn push_str(s: &mut String, t: &str)
    ensures
        final(s)@ == old(s)@ + t@,
{
    s.append(t);
}

fn digit(d: u64) -> (c: char)
    requires
        d < 10,
    ensures
        c == digit_char(d as nat),
{
    let b: u8 = 48u8 + d as u8;
    b as char
}

/// Appends the decimal digits of `n` to `s`.
pub fn push_unsigned(s: &mut String, n: u64)
    ensures
        final(s)@ == old(s)@ + nat_decimal(n as nat),
    decreases n,
{
    if n < 10 {
        push_char(s, digit(n));
    } else {
        push_unsigned(s, n / 10);
        push_char(s, digit(n % 10));
    }
}

/// Appends the decimal text of `v` to `s`.
pub fn push_signed(s: &mut String, v: i64)
    ensures
        final(s)@ == old(s)@ + int_decimal(v as int),
{
    if v < 0 {
        push_char(s, '-');
        let magnitude: u64 = (0i128 - v as i128) as u64;
        push_unsigned(s, magnitude);
    } else {
        push_unsigned(s, v as u64);
    }
}

}
