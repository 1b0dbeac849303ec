//! Numbers as the text of an attribute: whole numbers in decimal, and
//! opacities as a fraction of one with three places.

use crate::chars::push_char;
use vstd::prelude::*;

verus! {

/// The character of one decimal digit.
pub open spec fn digit_char(d: int) -> char {
    if d == 0 {
        '0'
    } else if d == 1 {
        '1'
    } else if d == 2 {
        '2'
    } else if d == 3 {
        '3'
    } else if d == 4 {
        '4'
    } else if d == 5 {
        '5'
    } else if d == 6 {
        '6'
    } else if d == 7 {
        '7'
    } else if d == 8 {
        '8'
    } else {
        '9'
    }
}

/// The decimal digits of `n`, without leading zeros.
pub open spec fn digits_of(n: nat) -> Seq<char>
    decreases n,
{
    if n < 10 {
        seq![digit_char(n as int)]
    } else {
        digits_of(n / 10).push(digit_char((n % 10) as int))
    }
}

/// `v` in decimal, with a minus sign in front where it is negative.
pub open spec fn decimal_text(v: int) -> Seq<char> {
    if v < 0 {
        seq!['-'] + digits_of((-v) as nat)
    } else {
        digits_of(v as nat)
    }
}

/// The digit that a character writes; zero for a character that writes none.
pub open spec fn digit_value(c: char) -> nat {
    if c == '1' {
        1
    } else if c == '2' {
        2
    } else if c == '3' {
        3
    } else if c == '4' {
        4
    } else if c == '5' {
        5
    } else if c == '6' {
        6
    } else if c == '7' {
        7
    } else if c == '8' {
        8
    } else if c == '9' {
        9
    } else {
        0
    }
}

/// The number that a sequence of digits writes.
pub open spec fn digits_value(digits: Seq<char>) -> nat
    decreases digits.len(),
{
    if digits.len() == 0 {
        0
    } else {
        digits_value(digits.drop_last()) * 10 + digit_value(digits.last())
    }
}

/// The digits of a number write that number; there is at least one, and
/// none is a minus sign.
pub proof fn lemma_digits_read_back(n: nat)
    ensures
        digits_value(digits_of(n)) == n,
        digits_of(n).len() > 0,
        forall|i: int| 0 <= i < digits_of(n).len() ==> digits_of(n)[i] != '-',
    decreases n,
{
    let last = digit_char((n % 10) as int);
    assert(digit_value(last) == n % 10);
    assert(digits_of(n).last() == last);
    if n < 10 {
        assert(digits_of(n).drop_last() =~= Seq::<char>::empty());
        assert(digits_value(digits_of(n).drop_last()) == 0);
    } else {
        lemma_digits_read_back(n / 10);
        assert(digits_of(n).drop_last() =~= digits_of(n / 10));
    }
    assert(digits_value(digits_of(n)) == digits_value(digits_of(n).drop_last()) * 10
        + digit_value(last));
}

/// Two numbers that are written alike are the same number.
pub proof fn lemma_decimal_is_injective(a: int, b: int)
    requires
        decimal_text(a) == decimal_text(b),
    ensures
        a == b,
{
    lemma_digits_read_back((if a < 0 { -a } else { a }) as nat);
    lemma_digits_read_back((if b < 0 { -b } else { b }) as nat);
    if a < 0 && b < 0 {
        assert(decimal_text(a).skip(1) =~= digits_of((-a) as nat));
        assert(decimal_text(b).skip(1) =~= digits_of((-b) as nat));
    } else if a < 0 {
        assert(decimal_text(a)[0] == '-');
        assert(decimal_text(b)[0] == digits_of(b as nat)[0]);
    } else if b < 0 {
        assert(decimal_text(b)[0] == '-');
        assert(decimal_text(a)[0] == digits_of(a as nat)[0]);
    }
}

/// How many thousandths of full opacity a level of 0 to 255 comes to,
/// rounded to the nearest.
pub open spec fn opacity_thousandths(level: u8) -> int {
    (level * 1000 + 127) / 255
}

/// An opacity level as a fraction of one: a digit, a point, three digits.
pub open spec fn opacity_text(level: u8) -> Seq<char> {
    let t = opacity_thousandths(level);
    seq![
        digit_char(t / 1000),
        '.',
        digit_char((t / 100) % 10),
        digit_char((t / 10) % 10),
        digit_char(t % 10),
    ]
}

/// The character of one decimal digit.
pub fn digit(d: u8) -> (c: char)
    requires
        d < 10,
    ensures
        c == digit_char(d as int),
{
    if d == 0 {
        '0'
    } else if d == 1 {
        '1'
    } else if d == 2 {
        '2'
    } else if d == 3 {
        '3'
    } else if d == 4 {
        '4'
    } else if d == 5 {
        '5'
    } else if d == 6 {
        '6'
    } else if d == 7 {
        '7'
    } else if d == 8 {
        '8'
    } else {
        '9'
    }
}

/// The digits of a sequence, last to first.
spec fn backwards(digits: Seq<char>) -> Seq<char> {
    Seq::new(digits.len(), |i: int| digits[digits.len() - 1 - i])
}

/// Appends `v` in decimal to `s`.
pub fn write_decimal(s: &mut String, v: i128)
    ensures
        final(s)@ == old(s)@ + decimal_text(v as int),
{
    let ghost start = s@;
    let mut rest: u128 = if v < 0 {
        push_char(s, '-');
        (-(v + 1)) as u128 + 1
    } else {
        v as u128
    };
    let ghost sign: Seq<char> = if v < 0 {
        seq!['-']
    } else {
        Seq::empty()
    };
    let ghost magnitude: nat = rest as nat;
    let mut low: Vec<char> = Vec::new();
    proof {
        assert(s@ =~= start + sign);
        assert(digits_of(magnitude) =~= digits_of(rest as nat) + backwards(low@));
    }
    while rest >= 10
        invariant
            digits_of(magnitude) == digits_of(rest as nat) + backwards(low@),
        decreases rest,
    {
        let ghost low_before = low@;
        let ghost rest_before = rest;
        low.push(digit((rest % 10) as u8));
        rest = rest / 10;
        proof {
            assert(backwards(low@) =~= seq![digit_char((rest_before % 10) as int)] + backwards(
                low_before,
            ));
            assert(digits_of(magnitude) =~= digits_of(rest as nat) + backwards(low@));
        }
    }
    push_char(s, digit(rest as u8));
    let mut i: usize = low.len();
    proof {
        assert(s@ =~= start + sign + digits_of(rest as nat) + backwards(low@).take(0));
    }
    while i > 0
        invariant
            i <= low@.len(),
            s@ == start + sign + digits_of(rest as nat) + backwards(low@).take(low@.len() - i),
        decreases i,
    {
        let ghost before = s@;
        i = i - 1;
        push_char(s, low[i]);
        proof {
            assert(backwards(low@).take(low@.len() - i) =~= backwards(low@).take(
                low@.len() - i - 1,
            ).push(low@[i as int]));
            assert(s@ =~= start + sign + digits_of(rest as nat) + backwards(low@).take(
                low@.len() - i,
            ));
        }
    }
    proof {
        assert(backwards(low@).take(low@.len() as int) =~= backwards(low@));
        assert(s@ =~= start + (sign + digits_of(magnitude)));
        assert(sign + digits_of(magnitude) =~= decimal_text(v as int));
    }
}

/// `v` in decimal.
pub fn decimal(v: i128) -> (out: String)
    ensures
        out@ == decimal_text(v as int),
{
    let mut out = String::new();
    write_decimal(&mut out, v);
    proof {
        assert(out@ =~= decimal_text(v as int));
    }
    out
}

/// An opacity level as a fraction of one, with three places.
pub fn opacity(level: u8) -> (out: String)
    ensures
        out@ == opacity_text(level),
{
    let t: u32 = (level as u32 * 1000 + 127) / 255;
    let mut out = String::new();
    push_char(&mut out, digit((t / 1000) as u8));
    push_char(&mut out, '.');
    push_char(&mut out, digit(((t / 100) % 10) as u8));
    push_char(&mut out, digit(((t / 10) % 10) as u8));
    push_char(&mut out, digit((t % 10) as u8));
    proof {
        assert(out@ =~= opacity_text(level));
    }
    out
}

} // verus!
