//! Decimal text of integers.

use vstd::prelude::*;
use vstd::string::*;
use crate::text;
use crate::text::chars_of;

verus! {

/// The decimal digit with the given value.
pub open spec fn digit_char(d: int) -> char {
    (('0' as u8) + d) as char
}

/// The decimal text of a natural number, without leading zeros.
pub open spec fn nat_text(n: nat) -> Seq<char>
    decreases n,
{
    if n < 10 {
        seq![digit_char(n as int)]
    } else {
        nat_text(n / 10).push(digit_char((n % 10) as int))
    }
}

/// The decimal text of an integer.
pub open spec fn int_text(n: int) -> Seq<char> {
    if n < 0 {
        seq!['-'] + nat_text((-n) as nat)
    } else {
        nat_text(n as nat)
    }
}

/// The value of a digit.
pub open spec fn digit_value(c: char) -> int {
    (c as int) - ('0' as int)
}

/// The number that a sequence of decimal digits writes.
pub open spec fn digits_value(s: Seq<char>) -> int
    decreases s.len(),
{
    if s.len() == 0 {
        0
    } else {
        digits_value(s.drop_last()) * 10 + digit_value(s.last())
    }
}

/// Whether the text is one or more decimal digits.
pub open spec fn all_digits(s: Seq<char>) -> bool {
    s.len() > 0 && forall|i: int| 0 <= i < s.len() ==> text::is_digit(#[trigger] s[i])
}

/// The digits of a signed decimal text: what follows its sign, if it has one.
pub open spec fn unsigned_part(s: Seq<char>) -> Seq<char> {
    if s.len() > 0 && (s[0] == '+' || s[0] == '-') {
        s.skip(1)
    } else {
        s
    }
}

/// The integer that a signed decimal text writes.
pub open spec fn signed_value(s: Seq<char>) -> int {
    if s.len() > 0 && s[0] == '-' {
        -digits_value(s.skip(1))
    } else {
        digits_value(unsigned_part(s))
    }
}

/// The 64-bit integer that a signed decimal text writes, if it writes one.
pub open spec fn parsed_i64(s: Seq<char>) -> Option<i64> {
    if all_digits(unsigned_part(s)) && i64::MIN <= signed_value(s) <= i64::MAX {
        Some(signed_value(s) as i64)
    } else {
        None
    }
}

/// The decimal text of an unsigned integer.
pub fn decimal_u128(n: u128) -> (r: String)
    ensures
        r@ == nat_text(n as nat),
    decreases n,
{
    let mut r = if n < 10 {
        String::new()
    } else {
        decimal_u128(n / 10)
    };
    let d: u8 = (n % 10) as u8;
    r.push((48u8 + d) as char);
    assert(r@ =~= nat_text(n as nat));
    r
}

/// The decimal text of an unsigned integer.
pub fn decimal_u64(n: u64) -> (r: String)
    ensures
        r@ == nat_text(n as nat),
{
    decimal_u128(n as u128)
}

/// The decimal text of an integer.
pub fn decimal_i64(n: i64) -> (r: String)
    ensures
        r@ == int_text(n as int),
{
    if n < 0 {
        let mut r = String::new();
        r.push('-');
        let m: u128 = (-(n as i128)) as u128;
        let digits = decimal_u128(m);
        r.append(digits.as_str());
        assert(r@ =~= int_text(n as int));
        r
    } else {
        decimal_u128(n as u128)
    }
}

/// A label followed by the decimal text of an integer.
pub fn numbered(label: &str, n: i64) -> (r: String)
    ensures
        r@ == label@ + int_text(n as int),
{
    let digits = decimal_i64(n);
    text::concat(label, digits.as_str())
}

/// A run of digits writes no negative number.
pub proof fn lemma_digits_nonnegative(s: Seq<char>)
    requires
        forall|i: int| 0 <= i < s.len() ==> text::is_digit(#[trigger] s[i]),
    ensures
        0 <= digits_value(s),
    decreases s.len(),
{
    if s.len() > 0 {
        assert(text::is_digit(s[s.len() - 1]));
        lemma_digits_nonnegative(s.drop_last());
    }
}

/// Reads a run of decimal digits, unless it writes a number above `bound`.
pub fn read_digits(a: &Vec<char>, from: usize, bound: u128) -> (r: Option<u128>)
    requires
        from <= a@.len(),
    ensures
        r == (if all_digits(a@.skip(from as int)) && digits_value(a@.skip(from as int)) <= bound {
            Some(digits_value(a@.skip(from as int)) as u128)
        } else {
            None
        }),
{
    let ghost s = a@.skip(from as int);
    if from == a.len() {
        return None;
    }
    let mut value: u128 = 0;
    let mut over: bool = false;
    let mut i: usize = from;
    assert(s.take(0) =~= Seq::<char>::empty());
    while i < a.len()
        invariant
            from <= i <= a@.len(),
            s == a@.skip(from as int),
            forall|j: int| 0 <= j < i - from ==> text::is_digit(#[trigger] s[j]),
            !over ==> value == digits_value(s.take(i - from)) && value <= bound,
            over ==> digits_value(s.take(i - from)) > bound,
        decreases a@.len() - i,
    {
        let c = a[i];
        if !('0' <= c && c <= '9') {
            assert(!text::is_digit(s[i - from]));
            return None;
        }
        let d: u128 = (c as u8 - 48u8) as u128;
        assert(s.take(i - from + 1).drop_last() =~= s.take(i - from));
        assert(s.take(i - from + 1).last() == c);
        assert(digit_value(c) == d);
        if !over {
            if value > (u128::MAX - d) / 10 {
                over = true;
            } else {
                value = value * 10 + d;
                if value > bound {
                    over = true;
                }
            }
        }
        i = i + 1;
    }
    assert(s.take(s.len() as int) =~= s);
    if over {
        None
    } else {
        Some(value)
    }
}

/// Reads a signed decimal text that writes a 64-bit integer.
pub fn parse_i64(s: &str) -> (r: Option<i64>)
    ensures
        r == parsed_i64(s@),
{
    let a = chars_of(s);
    if a.len() == 0 {
        return None;
    }
    let negative = a[0] == '-';
    let signed = negative || a[0] == '+';
    let from: usize = if signed {
        1
    } else {
        0
    };
    assert(a@.skip(from as int) =~= unsigned_part(s@));
    let bound: u128 = if negative {
        0x8000_0000_0000_0000
    } else {
        0x7fff_ffff_ffff_ffff
    };
    proof {
        if all_digits(unsigned_part(s@)) {
            lemma_digits_nonnegative(unsigned_part(s@));
        }
    }
    match read_digits(&a, from, bound) {
        Some(v) => {
            if negative {
                Some((-(v as i128)) as i64)
            } else {
                Some(v as i64)
            }
        },
        None => None,
    }
}

/// The text that writes a 64-bit integer reads back as that integer.
pub proof fn law_decimal_round_trip(n: i64)
    ensures
        parsed_i64(int_text(n as int)) == Some(n),
{
    let m = if n < 0 {
        -(n as int)
    } else {
        n as int
    };
    lemma_nat_text(m as nat);
    let t = int_text(n as int);
    if n < 0 {
        assert(t.skip(1) =~= nat_text(m as nat));
    } else {
        assert(text::is_digit(t[0]));
    }
}

/// The decimal text of a natural number is made of digits that write it.
pub proof fn lemma_nat_text(n: nat)
    ensures
        all_digits(nat_text(n)),
        digits_value(nat_text(n)) == n,
    decreases n,
{
    if n < 10 {
        let t = nat_text(n);
        assert(t.drop_last() =~= Seq::<char>::empty());
        assert(digits_value(t.drop_last()) == 0);
        assert(digit_value(t.last()) == n);
        assert(text::is_digit(t[0]));
    } else {
        lemma_nat_text(n / 10);
        let t = nat_text(n);
        let h = nat_text(n / 10);
        assert(t.drop_last() =~= h);
        assert forall|i: int| 0 <= i < t.len() implies text::is_digit(#[trigger] t[i]) by {
            if i < h.len() {
                assert(text::is_digit(h[i]));
                assert(t[i] == h[i]);
            }
        }
    }
}

/// A decimal text has no digit too many: the last is the rest by ten, and what stands before
/// it writes the tenth part; below ten it is the one digit.
pub proof fn law_numbers_are_written_in_tens(n: nat)
    ensures
        n < 10 ==> nat_text(n).len() == 1 && nat_text(n)[0] as int == '0' as int + n,
        n >= 10 ==> nat_text(n).len() == nat_text(n / 10).len() + 1 && nat_text(n).drop_last()
            == nat_text(n / 10) && nat_text(n).last() as int == '0' as int + n % 10,
        n > 0 ==> int_text(-n) == seq!['-'] + nat_text(n),
        int_text(n as int) == nat_text(n),
{
    if n >= 10 {
        assert(nat_text(n).drop_last() =~= nat_text(n / 10));
    }
}

/// Only digits, with a sign before them or none, are read as a number; anything else, nothing
/// at all, and what is too large, is not.
pub proof fn law_only_digits_are_read(s: Seq<char>, i: int)
    ensures
        s.len() == 0 ==> parsed_i64(s) is None,
        0 < i < s.len() && !('0' <= s[i] <= '9') ==> parsed_i64(s) is None,
        s.len() > 0 && !('0' <= s[0] <= '9') && s[0] != '+' && s[0] != '-' ==> parsed_i64(s)
            is None,
        s.len() == 1 && (s[0] == '+' || s[0] == '-') ==> parsed_i64(s) is None,
        parsed_i64(s) is Some && s[0] == '-' ==> parsed_i64(s)->Some_0 <= 0,
        parsed_i64(s) is Some && s[0] != '-' ==> parsed_i64(s)->Some_0 >= 0,
{
    let part = unsigned_part(s);
    if 0 < i < s.len() && !('0' <= s[i] <= '9') {
        if part == s {
            assert(!text::is_digit(part[i]));
        } else {
            assert(part[i - 1] == s[i]);
        }
        assert(!all_digits(part));
    }
    if s.len() > 0 && !('0' <= s[0] <= '9') && s[0] != '+' && s[0] != '-' {
        assert(!text::is_digit(part[0]));
    }
    if parsed_i64(s) is Some {
        lemma_digits_nonnegative(part);
        if s[0] == '-' {
            assert(part == s.skip(1));
        }
    }
}

} // verus!
