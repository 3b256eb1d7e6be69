//! Numbers and padding as text.

use vstd::prelude::*;

use crate::scan::{all_digits, digit_value, is_digit, spelled};
use crate::units::Reading;

verus! {

/// The character of a digit below sixteen.
pub open spec fn digit_char(d: int) -> char {
    if d == 0 {
        '0'
    } else if d == 1 {
        '1'
    } else if d == 2 {
        '2'
    } else if d == 3 {
        '3'
    } else if d == 4 {
        '4'
    } else if d == 5 {
        '5'
    } else if d == 6 {
        '6'
    } else if d == 7 {
        '7'
    } else if d == 8 {
        '8'
    } else if d == 9 {
        '9'
    } else if d == 10 {
        'a'
    } else if d == 11 {
        'b'
    } else if d == 12 {
        'c'
    } else if d == 13 {
        'd'
    } else if d == 14 {
        'e'
    } else {
        'f'
    }
}

/// The character of a digit below sixteen.
fn digit(d: u64) -> (c: char)
    requires
        d < 16,
    ensures
        c == digit_char(d as int),
{
    if d == 0 {
        '0'
    } else if d == 1 {
        '1'
    } else if d == 2 {
        '2'
    } else if d == 3 {
        '3'
    } else if d == 4 {
        '4'
    } else if d == 5 {
        '5'
    } else if d == 6 {
        '6'
    } else if d == 7 {
        '7'
    } else if d == 8 {
        '8'
    } else if d == 9 {
        '9'
    } else if d == 10 {
        'a'
    } else if d == 11 {
        'b'
    } else if d == 12 {
        'c'
    } else if d == 13 {
        'd'
    } else if d == 14 {
        'e'
    } else {
        'f'
    }
}

/// The last `width` digits of `n` in base `base`, most significant first.
pub open spec fn last_digits(n: nat, base: nat, width: nat) -> Seq<char>
    decreases width,
{
    if width == 0 || base == 0 {
        Seq::empty()
    } else {
        last_digits(n / base, base, (width - 1) as nat).push(digit_char((n % base) as int))
    }
}

/// `n` in decimal, without leading zeros.
pub open spec fn decimal(n: nat) -> Seq<char>
    decreases n,
{
    if n < 10 {
        seq![digit_char(n as int)]
    } else {
        decimal(n / 10).push(digit_char((n % 10) as int))
    }
}

/// Append `n` in decimal.
pub fn push_decimal(s: &mut String, n: u64)
    ensures
        final(s)@ == old(s)@ + decimal(n as nat),
    decreases n,
{
    if n >= 10 {
        push_decimal(s, n / 10);
        let ghost mid = s@;
        s.push(digit(n % 10));
        assert(s@ =~= old(s)@ + decimal(n as nat));
    } else {
        s.push(digit(n));
        assert(s@ =~= old(s)@ + decimal(n as nat));
    }
}

/// Append the last `width` digits of `n` in base `base`.
pub fn push_digits(s: &mut String, n: u64, base: u64, width: usize)
    requires
        2 <= base <= 16,
    ensures
        final(s)@ == old(s)@ + last_digits(n as nat, base as nat, width as nat),
    decreases width,
{
    if width > 0 {
        push_digits(s, n / base, base, width - 1);
        proof {
            assert(n % base < base) by (nonlinear_arith)
                requires
                    base > 0,
            ;
        }
        s.push(digit(n % base));
        assert(s@ =~= old(s)@ + last_digits(n as nat, base as nat, width as nat));
    } else {
        assert(s@ =~= old(s)@ + last_digits(n as nat, base as nat, width as nat));
    }
}

/// `n` in decimal, as a string.
pub fn decimal_text(n: u64) -> (s: String)
    ensures
        s@ == decimal(n as nat),
{
    let mut s = String::new();
    push_decimal(&mut s, n);
    assert(s@ =~= decimal(n as nat));
    s
}

/// `m / unit` rounded to the nearest whole number, a tie going to the even one.
pub open spec fn rounded(m: nat, unit: nat) -> nat {
    let q = m / unit;
    let r = m % unit;
    if 2 * r > unit || (2 * r == unit && q % 2 == 1) {
        q + 1
    } else {
        q
    }
}

/// The size of a reading.
pub open spec fn magnitude(v: int) -> nat {
    if v < 0 {
        (-v) as nat
    } else {
        v as nat
    }
}

/// The sign that a reading is written with.
pub open spec fn sign_text(v: int) -> Seq<char> {
    if v < 0 {
        seq!['-']
    } else {
        Seq::empty()
    }
}

/// A reading rounded to a whole number (ties to even), as text.
pub open spec fn fixed0(v: int) -> Seq<char> {
    sign_text(v) + decimal(rounded(magnitude(v), 1_000_000_000))
}

/// A reading rounded to one decimal place (ties to even), as text.
pub open spec fn fixed1(v: int) -> Seq<char> {
    let n = rounded(magnitude(v), 100_000_000);
    sign_text(v) + decimal(n / 10) + seq!['.'] + last_digits(n, 10, 1)
}

fn size_of_reading(v: Reading) -> (m: u64)
    ensures
        m == magnitude(v as int),
{
    if v < 0 {
        (-(v as i128)) as u64
    } else {
        v as u64
    }
}

fn round_to(m: u64, unit: u64) -> (n: u64)
    requires
        0 < unit <= 1_000_000_000_000_000,
        m <= 0x8000_0000_0000_0000,
    ensures
        n == rounded(m as nat, unit as nat),
        n <= m + 1,
{
    let q: u64 = m / unit;
    let r: u64 = m % unit;
    proof {
        assert(r < unit && q <= m) by (nonlinear_arith)
            requires
                unit > 0,
                q == m / unit,
                r == m % unit,
        ;
    }
    if 2 * r > unit || (2 * r == unit && q % 2 == 1) {
        q + 1
    } else {
        q
    }
}

/// Append a reading rounded to a whole number.
pub fn push_fixed0(s: &mut String, v: Reading)
    ensures
        final(s)@ == old(s)@ + fixed0(v as int),
{
    if v < 0 {
        s.push('-');
    }
    let n: u64 = round_to(size_of_reading(v), 1_000_000_000);
    push_decimal(s, n);
    assert(s@ =~= old(s)@ + fixed0(v as int));
}

/// Append a reading rounded to one decimal place.
pub fn push_fixed1(s: &mut String, v: Reading)
    ensures
        final(s)@ == old(s)@ + fixed1(v as int),
{
    if v < 0 {
        s.push('-');
    }
    let n: u64 = round_to(size_of_reading(v), 100_000_000);
    push_decimal(s, n / 10);
    s.push('.');
    push_digits(s, n, 10, 1);
    assert(s@ =~= old(s)@ + fixed1(v as int));
}

/// A reading divided by `scale` and rounded to one decimal place (ties to even), as text.
pub open spec fn scaled1(v: int, scale: nat) -> Seq<char> {
    let n = rounded(magnitude(v), 100_000_000 * scale);
    sign_text(v) + decimal(n / 10) + seq!['.'] + last_digits(n, 10, 1)
}

/// Append a reading divided by `scale` and rounded to one decimal place.
pub fn push_scaled1(s: &mut String, v: Reading, scale: u64)
    requires
        1 <= scale <= 1_000_000,
    ensures
        final(s)@ == old(s)@ + scaled1(v as int, scale as nat),
{
    if v < 0 {
        s.push('-');
    }
    let n: u64 = round_to(size_of_reading(v), 100_000_000 * scale);
    push_decimal(s, n / 10);
    s.push('.');
    push_digits(s, n, 10, 1);
    assert(s@ =~= old(s)@ + scaled1(v as int, scale as nat));
}

/// `n` spaces.
pub open spec fn spaces(n: int) -> Seq<char> {
    Seq::new(
        if n > 0 {
            n as nat
        } else {
            0
        },
        |i: int| ' ',
    )
}

/// `t` followed by spaces up to `width` characters.
pub open spec fn left_aligned(t: Seq<char>, width: int) -> Seq<char> {
    t + spaces(width - t.len())
}

/// `t` preceded by spaces up to `width` characters.
pub open spec fn right_aligned(t: Seq<char>, width: int) -> Seq<char> {
    spaces(width - t.len()) + t
}

fn push_spaces(s: &mut String, n: usize)
    ensures
        final(s)@ == old(s)@ + spaces(n as int),
{
    assert(old(s)@ + spaces(0) =~= old(s)@);
    for i in 0..n
        invariant
            s@ == old(s)@ + spaces(i as int),
    {
        s.push(' ');
        assert(s@ =~= old(s)@ + spaces(i + 1));
    }
}

/// Append `t`, left-aligned in `width` characters.
pub fn push_left_aligned(s: &mut String, t: &str, width: usize)
    ensures
        final(s)@ == old(s)@ + left_aligned(t@, width as int),
{
    let len: usize = t.unicode_len();
    s.append(t);
    if len < width {
        push_spaces(s, width - len);
    }
    assert(s@ =~= old(s)@ + left_aligned(t@, width as int));
}

/// Append `t`, right-aligned in `width` characters.
pub fn push_right_aligned(s: &mut String, t: &str, width: usize)
    ensures
        final(s)@ == old(s)@ + right_aligned(t@, width as int),
{
    let len: usize = t.unicode_len();
    if len < width {
        push_spaces(s, width - len);
    }
    s.append(t);
    assert(s@ =~= old(s)@ + right_aligned(t@, width as int));
}

// ---------------------------------------------------------------------------------------
// Laws
// ---------------------------------------------------------------------------------------

/// Digits are the ASCII ones, and then the letters from `a`.
pub proof fn law_digits_stand_for_their_values(d: int)
    ensures
        0 <= d < 10 ==> digit_char(d) as int == '0' as int + d,
        10 <= d < 16 ==> digit_char(d) as int == 'a' as int + (d - 10),
{
}

/// A number is written in the digits that spell it, and with no nought before them.
pub proof fn law_decimals_spell_their_number(n: nat)
    ensures
        all_digits(decimal(n)),
        spelled(decimal(n), decimal(n).len() as int) == n,
        decimal(n).len() > 0,
        n > 0 ==> decimal(n)[0] != '0',
        n == 0 ==> decimal(n) == seq!['0'],
    decreases n,
{
    if n < 10 {
        let s = decimal(n);
        assert(spelled(s, 0) == 0);
        assert(spelled(s, 1) == digit_value(s[0]));
    } else {
        law_decimals_spell_their_number(n / 10);
        let init = decimal(n / 10);
        let s = decimal(n);
        lemma_spelled_of_prefix(init, digit_char((n % 10) as int), init.len() as int);
        assert(s == init.push(digit_char((n % 10) as int)));
        assert(s[s.len() - 1] == digit_char((n % 10) as int));
        assert forall|i: int| 0 <= i < s.len() implies is_digit(#[trigger] s[i]) by {
            if i < init.len() {
                assert(s[i] == init[i]);
            }
        }
    }
}

proof fn lemma_spelled_of_prefix(s: Seq<char>, c: char, n: int)
    requires
        0 <= n <= s.len(),
    ensures
        spelled(s.push(c), n) == spelled(s, n),
    decreases n,
{
    if n > 0 {
        lemma_spelled_of_prefix(s, c, n - 1);
        assert(s.push(c)[n - 1] == s[n - 1]);
    }
}

/// Of the last digits there are as many as asked for, noughts where the number has fewer; one
/// more digit of the number is one more at the end.
pub proof fn law_last_digits_end_the_number(n: nat, base: nat, width: nat, d: nat)
    requires
        d < base,
    ensures
        last_digits(n, base, width).len() == width,
        last_digits(n * base + d, base, width + 1) == last_digits(n, base, width).push(
            digit_char(d as int),
        ),
        base > 1 ==> forall|i: int|
            0 <= i < width ==> #[trigger] last_digits(0, base, width)[i] == '0',
    decreases width,
{
    assert((n * base + d) / base == n && (n * base + d) % base == d) by {
        vstd::arithmetic::div_mod::lemma_fundamental_div_mod_converse(
            (n * base + d) as int,
            base as int,
            n as int,
            d as int,
        );
    }
    lemma_last_digits(n, base, width);
    if base > 1 {
        lemma_last_noughts(base, width);
    }
}

proof fn lemma_last_digits(n: nat, base: nat, width: nat)
    requires
        base > 0,
    ensures
        last_digits(n, base, width).len() == width,
    decreases width,
{
    if width > 0 {
        lemma_last_digits(n / base, base, (width - 1) as nat);
    }
}

proof fn lemma_last_noughts(base: nat, width: nat)
    requires
        base > 1,
    ensures
        last_digits(0, base, width).len() == width,
        forall|i: int| 0 <= i < width ==> #[trigger] last_digits(0, base, width)[i] == '0',
    decreases width,
{
    if width > 0 {
        assert(0nat / base == 0 && 0nat % base == 0) by (nonlinear_arith)
            requires
                base > 1,
        ;
        lemma_last_noughts(base, (width - 1) as nat);
    }
}

/// Rounding goes to the nearest whole number, and half way to the even one.
pub proof fn law_rounding_goes_to_the_nearest(m: nat, unit: nat)
    requires
        unit > 0,
    ensures
        ({
            let n = rounded(m, unit);
            &&& -unit <= 2 * (n * unit - m) <= unit
            &&& 2 * (n * unit - m) == unit || 2 * (n * unit - m) == -unit ==> n % 2 == 0
        }),
{
    let q = m / unit;
    let r = m % unit;
    vstd::arithmetic::div_mod::lemma_fundamental_div_mod(m as int, unit as int);
    assert(unit * q == q * unit) by (nonlinear_arith);
    assert((q + 1) * unit == q * unit + unit) by (nonlinear_arith);
    vstd::arithmetic::div_mod::lemma_mod_bound(m as int, unit as int);
}

/// A whole reading is written as its number; a negative one with a sign before its size.
pub proof fn law_readings_are_written_in_whole_units(v: int, n: nat)
    ensures
        fixed0((n * 1_000_000_000) as int) == decimal(n),
        v > 0 ==> fixed0(-v) == seq!['-'] + fixed0(v),
        v >= 0 ==> fixed0(v) == decimal(rounded(v as nat, 1_000_000_000)),
{
    assert(sign_text((n * 1_000_000_000) as int) + decimal(n) =~= decimal(n));
    if v > 0 {
        assert(fixed0(-v) =~= seq!['-'] + fixed0(v));
    }
    if v >= 0 {
        assert(fixed0(v) =~= decimal(rounded(v as nat, 1_000_000_000)));
    }
}

/// A reading in tenths is written as its whole part, a point and the tenth; scaled down, as
/// the reading in the larger unit.
pub proof fn law_readings_are_written_in_tenths(v: int, n: nat, tenth: nat, scale: nat)
    requires
        tenth < 10,
        scale > 0,
    ensures
        fixed1(((n * 10 + tenth) * 100_000_000) as int) == decimal(n) + seq![
            '.',
            digit_char(tenth as int),
        ],
        scaled1(((n * 10 + tenth) * (100_000_000 * scale)) as int, scale) == decimal(n) + seq![
            '.',
            digit_char(tenth as int),
        ],
        scaled1(v, 1) == fixed1(v),
        v > 0 ==> fixed1(-v) == seq!['-'] + fixed1(v),
        v > 0 ==> scaled1(-v, scale) == seq!['-'] + scaled1(v, scale),
{
    let k = (n * 10 + tenth) as nat;
    lemma_tenths((k * 100_000_000) as int, k, 100_000_000);
    let unit = (100_000_000 * scale) as nat;
    lemma_tenths((k * unit) as int, k, unit);
    assert(k / 10 == n && k % 10 == tenth);
    law_last_digits_end_the_number(n, 10, 0, tenth);
    assert(last_digits(k, 10, 1) =~= seq![digit_char(tenth as int)]);
    let text = decimal(n) + seq!['.', digit_char(tenth as int)];
    assert(Seq::<char>::empty() + decimal(n) + seq!['.'] + seq![digit_char(tenth as int)]
        =~= text);
    if v > 0 {
        assert(fixed1(-v) =~= seq!['-'] + fixed1(v));
        assert(scaled1(-v, scale) =~= seq!['-'] + scaled1(v, scale));
    }
}

proof fn lemma_tenths(v: int, k: nat, unit: nat)
    requires
        unit > 0,
        v == k * unit,
    ensures
        v >= 0,
        rounded(magnitude(v), unit) == k,
{
    assert(k * unit >= 0) by (nonlinear_arith);
    vstd::arithmetic::div_mod::lemma_fundamental_div_mod_converse(
        v,
        unit as int,
        k as int,
        0,
    );
}

/// Aligned text is as wide as asked for, or as it is where it is wider, and nothing but
/// spaces is added: after it where it is aligned to the left, before it to the right.
pub proof fn law_alignment_adds_spaces(t: Seq<char>, width: int)
    ensures
        ({
            let l = left_aligned(t, width);
            let r = right_aligned(t, width);
            let wide = if width > t.len() {
                width
            } else {
                t.len() as int
            };
            &&& l.len() == wide && r.len() == wide
            &&& l.take(t.len() as int) == t
            &&& r.skip(wide - t.len()) == t
            &&& forall|i: int| t.len() <= i < wide ==> #[trigger] l[i] == ' '
            &&& forall|i: int| 0 <= i < wide - t.len() ==> #[trigger] r[i] == ' '
        }),
{
    let l = left_aligned(t, width);
    let r = right_aligned(t, width);
    let wide = if width > t.len() {
        width
    } else {
        t.len() as int
    };
    assert(l.take(t.len() as int) =~= t);
    assert(r.skip(wide - t.len()) =~= t);
}

} // verus!
