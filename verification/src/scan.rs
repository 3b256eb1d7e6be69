//! Scanning: lines, words, trimming and numbers in command output.

use vstd::prelude::*;

use crate::text::{chars_of, texts};
use crate::units::Reading;

verus! {

// ---------------------------------------------------------------------------------------
// White space
// ---------------------------------------------------------------------------------------

/// The characters with the Unicode property `White_Space`.
pub open spec fn is_space(c: char) -> bool {
    ||| '\u{9}' <= c <= '\u{d}'
    ||| c == ' '
    ||| c == '\u{85}'
    ||| c == '\u{a0}'
    ||| c == '\u{1680}'
    ||| '\u{2000}' <= c <= '\u{200a}'
    ||| c == '\u{2028}'
    ||| c == '\u{2029}'
    ||| c == '\u{202f}'
    ||| c == '\u{205f}'
    ||| c == '\u{3000}'
}

/// Whether `c` is white space.
pub fn space(c: char) -> (r: bool)
    ensures
        r == is_space(c),
{
    ('\u{9}' <= c && c <= '\u{d}') || c == ' ' || c == '\u{85}' || c == '\u{a0}' || c == '\u{1680}'
        || ('\u{2000}' <= c && c <= '\u{200a}') || c == '\u{2028}' || c == '\u{2029}' || c
        == '\u{202f}' || c == '\u{205f}' || c == '\u{3000}'
}

/// `s` without its leading white space.
pub open spec fn trim_start(s: Seq<char>) -> Seq<char>
    decreases s.len(),
{
    if s.len() > 0 && is_space(s[0]) {
        trim_start(s.drop_first())
    } else {
        s
    }
}

/// `s` without its trailing white space.
pub open spec fn trim_end(s: Seq<char>) -> Seq<char>
    decreases s.len(),
{
    if s.len() > 0 && is_space(s.last()) {
        trim_end(s.drop_last())
    } else {
        s
    }
}

/// `s` without the white space round it.
pub open spec fn trim(s: Seq<char>) -> Seq<char> {
    trim_end(trim_start(s))
}

/// The characters from `from` up to `to`.
pub fn part(s: &[char], from: usize, to: usize) -> (r: Vec<char>)
    requires
        from <= to <= s@.len(),
    ensures
        r@ == s@.subrange(from as int, to as int),
{
    let mut r: Vec<char> = Vec::new();
    for i in from..to
        invariant
            from <= i <= to <= s@.len(),
            r@ == s@.subrange(from as int, i as int),
    {
        r.push(s[i]);
        assert(s@.subrange(from as int, i + 1) =~= s@.subrange(from as int, i as int).push(
            s@[i as int],
        ));
    }
    r
}

/// `s` without its leading white space.
pub fn without_leading_space(s: &[char]) -> (r: Vec<char>)
    ensures
        r@ == trim_start(s@),
{
    let mut i: usize = 0;
    assert(s@.skip(0) =~= s@);
    while i < s.len() && space(s[i])
        invariant
            i <= s@.len(),
            trim_start(s@.skip(i as int)) == trim_start(s@),
        decreases s@.len() - i,
    {
        assert(s@.skip(i as int).drop_first() =~= s@.skip(i + 1));
        i = i + 1;
    }
    assert(s@.skip(i as int) =~= s@.subrange(i as int, s@.len() as int));
    part(s, i, s.len())
}

/// `s` without its trailing white space.
pub fn without_trailing_space(s: &[char]) -> (r: Vec<char>)
    ensures
        r@ == trim_end(s@),
{
    let mut n: usize = s.len();
    assert(s@.take(n as int) =~= s@);
    while n > 0 && space(s[n - 1])
        invariant
            n <= s@.len(),
            trim_end(s@.take(n as int)) == trim_end(s@),
        decreases n,
    {
        assert(s@.take(n as int).drop_last() =~= s@.take(n - 1));
        n = n - 1;
    }
    assert(s@.take(n as int) =~= s@.subrange(0, n as int));
    part(s, 0, n)
}

/// `s` without the white space round it.
pub fn trimmed(s: &[char]) -> (r: Vec<char>)
    ensures
        r@ == trim(s@),
{
    let t = without_leading_space(s);
    without_trailing_space(&t)
}

// ---------------------------------------------------------------------------------------
// Prefixes and separators
// ---------------------------------------------------------------------------------------

/// `s` begins with `prefix`.
pub open spec fn has_prefix(s: Seq<char>, prefix: Seq<char>) -> bool {
    prefix.len() <= s.len() && s.take(prefix.len() as int) == prefix
}

/// Whether `s` begins with `prefix`.
pub fn begins_with(s: &[char], prefix: &str) -> (r: bool)
    ensures
        r == has_prefix(s@, prefix@),
{
    let p = chars_of(prefix);
    if p.len() > s.len() {
        return false;
    }
    for i in 0..p.len()
        invariant
            p@ == prefix@,
            p@.len() <= s@.len(),
            s@.take(i as int) == p@.take(i as int),
    {
        if s[i] != p[i] {
            assert(s@.take(p@.len() as int)[i as int] != p@[i as int]);
            return false;
        }
        assert(s@.take(i + 1) =~= s@.take(i as int).push(s@[i as int]));
        assert(p@.take(i + 1) =~= p@.take(i as int).push(p@[i as int]));
    }
    assert(p@.take(p@.len() as int) =~= p@);
    true
}

/// What follows `prefix` in `s`, where `s` begins with it.
pub open spec fn after_prefix(s: Seq<char>, prefix: Seq<char>) -> Option<Seq<char>> {
    if has_prefix(s, prefix) {
        Some(s.skip(prefix.len() as int))
    } else {
        None
    }
}

/// The characters of an optional vector.
pub open spec fn chars_in(v: Option<Vec<char>>) -> Option<Seq<char>> {
    match v {
        Some(w) => Some(w@),
        None => None,
    }
}

/// What follows `prefix` in `s`, where `s` begins with it.
pub fn strip(s: &[char], prefix: &str) -> (r: Option<Vec<char>>)
    ensures
        chars_in(r) == after_prefix(s@, prefix@),
{
    if begins_with(s, prefix) {
        let n: usize = chars_of(prefix).len();
        assert(s@.skip(n as int) =~= s@.subrange(n as int, s@.len() as int));
        Some(part(s, n, s.len()))
    } else {
        None
    }
}

/// The position of the first `c` in `s`, or the length of `s` where there is none.
pub open spec fn find(s: Seq<char>, c: char) -> int
    decreases s.len(),
{
    if s.len() == 0 || s[0] == c {
        0
    } else {
        1 + find(s.drop_first(), c)
    }
}

/// [`find`] stays within the text, stops at a match, and passes none.
pub proof fn lemma_find(s: Seq<char>, c: char)
    ensures
        0 <= find(s, c) <= s.len(),
        find(s, c) < s.len() ==> s[find(s, c)] == c,
        forall|i: int| 0 <= i < find(s, c) ==> s[i] != c,
    decreases s.len(),
{
    if s.len() > 0 && s[0] != c {
        lemma_find(s.drop_first(), c);
        assert forall|i: int| 0 <= i < find(s, c) implies s[i] != c by {
            if i > 0 {
                assert(s[i] == s.drop_first()[i - 1]);
            }
        }
    }
}

/// The position of the first `c` in `s` at or after `from`, or the length of `s`.
pub fn position_from(s: &[char], from: usize, c: char) -> (k: usize)
    requires
        from <= s@.len(),
    ensures
        k == from + find(s@.skip(from as int), c),
        from <= k <= s@.len(),
        k < s@.len() ==> s@[k as int] == c,
{
    let mut k: usize = from;
    while k < s.len() && s[k] != c
        invariant
            from <= k <= s@.len(),
            from + find(s@.skip(from as int), c) == k + find(s@.skip(k as int), c),
        decreases s@.len() - k,
    {
        assert(s@.skip(k as int).drop_first() =~= s@.skip(k + 1));
        k = k + 1;
    }
    k
}

/// The pieces of `s` between the occurrences of `c`: one more than there are of `c`.
pub open spec fn split_on(s: Seq<char>, c: char) -> Seq<Seq<char>>
    decreases s.len(),
    via split_on_decreases
{
    let k = find(s, c);
    if k >= s.len() {
        seq![s]
    } else {
        seq![s.take(k)] + split_on(s.skip(k + 1), c)
    }
}

#[via_fn]
proof fn split_on_decreases(s: Seq<char>, c: char) {
    lemma_find(s, c);
}

/// The pieces of `s` between the occurrences of `c`.
pub fn pieces(s: &[char], c: char) -> (r: Vec<Vec<char>>)
    ensures
        texts(r@) == split_on(s@, c),
{
    let mut r: Vec<Vec<char>> = Vec::new();
    let mut at: usize = 0;
    assert(s@.skip(0) =~= s@);
    assert(texts(r@) + split_on(s@, c) =~= split_on(s@, c));
    loop
        invariant
            at <= s@.len(),
            texts(r@) + split_on(s@.skip(at as int), c) == split_on(s@, c),
        decreases s@.len() - at,
    {
        let k: usize = position_from(s, at, c);
        let ghost rest = s@.skip(at as int);
        let piece = part(s, at, k);
        let ghost before = r@;
        r.push(piece);
        assert(texts(r@) =~= texts(before).push(piece@));
        if k >= s.len() {
            assert(piece@ =~= rest);
            assert(texts(r@) =~= texts(before) + split_on(rest, c));
            return r;
        }
        assert(piece@ =~= rest.take(find(rest, c)));
        assert(rest.skip(find(rest, c) + 1) =~= s@.skip(k + 1));
        assert(texts(r@) + split_on(s@.skip(k + 1), c) =~= texts(before) + split_on(rest, c));
        at = k + 1;
    }
}

// ---------------------------------------------------------------------------------------
// Lines and words
// ---------------------------------------------------------------------------------------

/// A line that a line feed ended, without the carriage return before it.
pub open spec fn strip_return(line: Seq<char>) -> Seq<char> {
    if line.len() > 0 && line.last() == '\r' {
        line.drop_last()
    } else {
        line
    }
}

/// The lines of `s`: each ends at a line feed, which is not part of it, nor is a carriage
/// return right before it; what follows the last line feed is a line unless it is empty.
pub open spec fn lines(s: Seq<char>) -> Seq<Seq<char>>
    decreases s.len(),
    via lines_decreases
{
    let k = find(s, '\n');
    if s.len() == 0 {
        seq![]
    } else if k >= s.len() {
        seq![s]
    } else {
        seq![strip_return(s.take(k))] + lines(s.skip(k + 1))
    }
}

#[via_fn]
proof fn lines_decreases(s: Seq<char>) {
    lemma_find(s, '\n');
}

/// The lines of `s`.
pub fn lines_of(s: &[char]) -> (r: Vec<Vec<char>>)
    ensures
        texts(r@) == lines(s@),
{
    let mut r: Vec<Vec<char>> = Vec::new();
    let mut at: usize = 0;
    assert(s@.skip(0) =~= s@);
    assert(texts(r@) + lines(s@) =~= lines(s@));
    while at < s.len()
        invariant
            at <= s@.len(),
            texts(r@) + lines(s@.skip(at as int)) == lines(s@),
        decreases s@.len() - at,
    {
        let ghost rest = s@.skip(at as int);
        let k: usize = position_from(s, at, '\n');
        let ghost before = r@;
        if k >= s.len() {
            let line = part(s, at, k);
            r.push(line);
            assert(line@ =~= rest);
            assert(texts(r@) =~= texts(before).push(line@));
            assert(texts(r@) =~= texts(before) + lines(rest));
            return r;
        }
        let end: usize = if k > at && s[k - 1] == '\r' {
            k - 1
        } else {
            k
        };
        let line = part(s, at, end);
        r.push(line);
        let ghost j = find(rest, '\n');
        assert(rest.take(j) =~= s@.subrange(at as int, k as int));
        assert(line@ =~= strip_return(rest.take(j)));
        assert(texts(r@) =~= texts(before).push(line@));
        assert(rest.skip(j + 1) =~= s@.skip(k + 1));
        assert(texts(r@) + lines(s@.skip(k + 1)) =~= texts(before) + lines(rest));
        at = k + 1;
    }
    assert(s@.skip(at as int).len() == 0);
    assert(texts(r@) =~= texts(r@) + lines(s@.skip(at as int)));
    r
}

/// The length of the leading run of `s` that holds no white space.
pub open spec fn word_len(s: Seq<char>) -> int
    decreases s.len(),
{
    if s.len() == 0 || is_space(s[0]) {
        0
    } else {
        1 + word_len(s.drop_first())
    }
}

proof fn lemma_word_len(s: Seq<char>)
    ensures
        0 <= word_len(s) <= s.len(),
    decreases s.len(),
{
    if s.len() > 0 && !is_space(s[0]) {
        lemma_word_len(s.drop_first());
    }
}

proof fn lemma_trim_start_len(s: Seq<char>)
    ensures
        trim_start(s).len() <= s.len(),
        trim_start(s).len() > 0 ==> !is_space(trim_start(s)[0]),
    decreases s.len(),
{
    if s.len() > 0 && is_space(s[0]) {
        lemma_trim_start_len(s.drop_first());
    }
}

/// The words of `s`: its maximal runs without white space.
pub open spec fn words(s: Seq<char>) -> Seq<Seq<char>>
    decreases s.len(),
    via words_decreases
{
    let t = trim_start(s);
    if t.len() == 0 {
        seq![]
    } else {
        seq![t.take(word_len(t))] + words(t.skip(word_len(t)))
    }
}

#[via_fn]
proof fn words_decreases(s: Seq<char>) {
    lemma_trim_start_len(s);
    let t = trim_start(s);
    if t.len() > 0 {
        lemma_word_len(t);
        lemma_word_len(t.drop_first());
    }
}

/// The words of `s`.
pub fn words_of(s: &[char]) -> (r: Vec<Vec<char>>)
    ensures
        texts(r@) == words(s@),
{
    let mut r: Vec<Vec<char>> = Vec::new();
    let mut at: usize = 0;
    assert(s@.skip(0) =~= s@);
    assert(texts(r@) + words(s@) =~= words(s@));
    loop
        invariant
            at <= s@.len(),
            texts(r@) + words(s@.skip(at as int)) == words(s@),
        decreases s@.len() - at,
    {
        let ghost rest = s@.skip(at as int);
        let mut i: usize = at;
        while i < s.len() && space(s[i])
            invariant
                at <= i <= s@.len(),
                trim_start(s@.skip(i as int)) == trim_start(s@.skip(at as int)),
            decreases s@.len() - i,
        {
            assert(s@.skip(i as int).drop_first() =~= s@.skip(i + 1));
            i = i + 1;
        }
        let ghost t = s@.skip(i as int);
        assert(trim_start(rest) == t);
        if i >= s.len() {
            assert(texts(r@) =~= texts(r@) + words(rest));
            return r;
        }
        let mut k: usize = i;
        while k < s.len() && !space(s[k])
            invariant
                i <= k <= s@.len(),
                (k - i) + word_len(s@.skip(k as int)) == word_len(s@.skip(i as int)),
            decreases s@.len() - k,
        {
            assert(s@.skip(k as int).drop_first() =~= s@.skip(k + 1));
            k = k + 1;
        }
        assert(word_len(s@.skip(k as int)) == 0);
        let word = part(s, i, k);
        let ghost before = r@;
        r.push(word);
        assert(word@ =~= t.take(word_len(t)));
        assert(texts(r@) =~= texts(before).push(word@));
        assert(t.skip(word_len(t)) =~= s@.skip(k as int));
        assert(texts(r@) + words(s@.skip(k as int)) =~= texts(before) + words(rest));
        assert(k > i) by {
            lemma_word_len(t.drop_first());
        }
        at = k;
    }
}

// ---------------------------------------------------------------------------------------
// Numbers
// ---------------------------------------------------------------------------------------

/// `c` is one of the ten ASCII digits.
pub open spec fn is_digit(c: char) -> bool {
    '0' <= c <= '9'
}

/// The value of an ASCII digit.
pub open spec fn digit_value(c: char) -> int {
    c as int - '0' as int
}

/// Every character of `s` is an ASCII digit.
pub open spec fn all_digits(s: Seq<char>) -> bool {
    forall|i: int| 0 <= i < s.len() ==> is_digit(#[trigger] s[i])
}

/// The number that the first `n` digits of `s` spell, a digit beyond the end counting as 0.
pub open spec fn spelled(s: Seq<char>, n: int) -> int
    decreases n,
{
    if n <= 0 {
        0
    } else {
        10 * spelled(s, n - 1) + (if n - 1 < s.len() {
            digit_value(s[n - 1])
        } else {
            0
        })
    }
}

proof fn lemma_spelled_grows(s: Seq<char>, n: int, m: int)
    requires
        all_digits(s),
        0 <= n <= m,
    ensures
        0 <= spelled(s, n) <= spelled(s, m),
    decreases m,
{
    if m > n {
        lemma_spelled_grows(s, n, m - 1);
        if m - 1 < s.len() {
            assert(is_digit(s[m - 1]));
        }
    } else if m > 0 {
        lemma_spelled_grows(s, n - 1, m - 1);
        if m - 1 < s.len() {
            assert(is_digit(s[m - 1]));
        }
    }
}

/// Whether every character of `s` is an ASCII digit.
pub fn only_digits(s: &[char]) -> (r: bool)
    ensures
        r == all_digits(s@),
{
    for i in 0..s.len()
        invariant
            forall|j: int| 0 <= j < i ==> is_digit(#[trigger] s@[j]),
    {
        if !('0' <= s[i] && s[i] <= '9') {
            assert(!is_digit(s@[i as int]));
            return false;
        }
    }
    true
}

/// The value of one digit.
fn digit_of(c: char) -> (d: u64)
    requires
        is_digit(c),
    ensures
        d == digit_value(c),
{
    proof {
        lemma_code_fits(c);
    }
    (c as u32 - '0' as u32) as u64
}

proof fn lemma_code_fits(c: char)
    ensures
        (c as u32) as int == c as int,
{
}

/// The number that the first `n` digits of `s` spell, held to `limit`.
fn spelled_up_to(s: &[char], n: usize, limit: u128) -> (v: u128)
    requires
        all_digits(s@),
        limit <= FAR,
    ensures
        v == (if spelled(s@, n as int) > limit {
            limit as int
        } else {
            spelled(s@, n as int)
        }),
{
    let mut v: u128 = 0;
    for i in 0..n
        invariant
            all_digits(s@),
            limit <= FAR,
            v == spelled(s@, i as int),
            v <= limit,
    {
        let d: u64 = if i < s.len() {
            assert(is_digit(s@[i as int]));
            digit_of(s[i])
        } else {
            0
        };
        let next: u128 = 10 * v + d as u128;
        assert(next == spelled(s@, i + 1));
        if next > limit {
            proof {
                lemma_spelled_grows(s@, i + 1, n as int);
            }
            return limit;
        }
        v = next;
    }
    v
}

/// More than any text is long: the exponents of a number are told apart up to here.
const FAR: u128 = 0x1_0000_0000_0000_0100;

/// What an unsigned 32-bit number in decimal reads as: digits, with `+` before them or not,
/// that spell a value in range.
pub open spec fn read_u32(s: Seq<char>) -> Option<u32> {
    let digits = if s.len() > 0 && s[0] == '+' {
        s.drop_first()
    } else {
        s
    };
    let value = spelled(digits, digits.len() as int);
    if digits.len() > 0 && all_digits(digits) && value <= u32::MAX {
        Some(value as u32)
    } else {
        None
    }
}

/// Read an unsigned 32-bit number.
pub fn parse_u32(s: &[char]) -> (r: Option<u32>)
    ensures
        r == read_u32(s@),
{
    let start: usize = if s.len() > 0 && s[0] == '+' {
        1
    } else {
        0
    };
    let digits = part(s, start, s.len());
    assert(start == 1 ==> digits@ =~= s@.drop_first());
    assert(start == 0 ==> digits@ =~= s@);
    if digits.len() == 0 || !only_digits(&digits) {
        return None;
    }
    let v: u128 = spelled_up_to(&digits, digits.len(), 0x1_0000_0000);
    if v > u32::MAX as u128 {
        None
    } else {
        Some(v as u32)
    }
}

/// The sign and the body of a decimal number: an optional `+` or `-`, then the rest.
pub open spec fn unsigned_part(s: Seq<char>) -> Seq<char> {
    if s.len() > 0 && (s[0] == '+' || s[0] == '-') {
        s.drop_first()
    } else {
        s
    }
}

/// The digits of a decimal number, its point left out.
pub open spec fn number_digits(body: Seq<char>) -> Seq<char> {
    let k = find(body, '.');
    if k < body.len() {
        body.take(k) + body.skip(k + 1)
    } else {
        body
    }
}

/// Where the exponent of a number begins: at the first `e` or `E`, or else at the end.
pub open spec fn exponent_mark(body: Seq<char>) -> int {
    let small = find(body, 'e');
    let large = find(body, 'E');
    if small <= large {
        small
    } else {
        large
    }
}

/// What a number says before its exponent.
pub open spec fn mantissa(body: Seq<char>) -> Seq<char> {
    body.take(exponent_mark(body))
}

/// What a number says after the mark of its exponent.
pub open spec fn exponent(body: Seq<char>) -> Seq<char> {
    body.skip(exponent_mark(body) + 1)
}

/// By how many places the exponent moves the point to the right; none without one.
pub open spec fn exponent_value(body: Seq<char>) -> int {
    let digits = unsigned_part(exponent(body));
    let places = spelled(digits, digits.len() as int);
    if exponent_mark(body) >= body.len() {
        0
    } else if exponent(body)[0] == '-' {
        -places
    } else {
        places
    }
}

/// A number without its sign: at least one digit, with at most one point before, between or
/// after the digits, and then, or not, an exponent: `e` or `E`, an optional sign and digits.
pub open spec fn is_decimal(body: Seq<char>) -> bool {
    let digits = number_digits(mantissa(body));
    let places = unsigned_part(exponent(body));
    &&& digits.len() > 0
    &&& all_digits(digits)
    &&& exponent_mark(body) < body.len() ==> places.len() > 0 && all_digits(places)
}

/// `s` is the lower-case `word`, in any case.
pub open spec fn ignoring_case(s: Seq<char>, word: Seq<char>) -> bool {
    &&& s.len() == word.len()
    &&& forall|i: int|
        0 <= i < s.len() ==> #[trigger] s[i] == word[i] || s[i] as int == word[i] as int - 32
}

/// A number without its sign that has no end: `inf` or `infinity`, in any case.
pub open spec fn is_infinity(body: Seq<char>) -> bool {
    ignoring_case(body, "inf"@) || ignoring_case(body, "infinity"@)
}

/// `s` is the number that is none: an optional sign and `nan`, in any case. No reading
/// stands for it.
pub open spec fn is_nan(s: Seq<char>) -> bool {
    ignoring_case(unsigned_part(s), "nan"@)
}

/// `s` is a number: an optional sign, and then a decimal number or infinity.
pub open spec fn is_number(s: Seq<char>) -> bool {
    is_decimal(unsigned_part(s)) || is_infinity(unsigned_part(s))
}

/// What a number reads as, in billionths. Decimal places past the ninth are dropped, and a
/// value beyond the range of a [`Reading`], infinity too, is held to `i64::MAX` in size.
pub open spec fn read_number(s: Seq<char>) -> Option<Reading> {
    if is_number(s) {
        let body = unsigned_part(s);
        let point = find(mantissa(body), '.') + exponent_value(body);
        let size = spelled(number_digits(mantissa(body)), point + 9);
        let held = if is_infinity(body) || size > i64::MAX {
            i64::MAX as int
        } else {
            size
        };
        Some(
            if s[0] == '-' {
                (-held) as i64
            } else {
                held as i64
            },
        )
    } else {
        None
    }
}

/// `v` with one more digit, held to the range of a reading.
fn shifted(v: i64, d: u64) -> (r: i64)
    requires
        v >= 0,
        d <= 9,
    ensures
        r == (if 10 * v + d > i64::MAX {
            i64::MAX as int
        } else {
            10 * v + d
        }),
{
    let next: i128 = 10 * (v as i128) + d as i128;
    if next > i64::MAX as i128 {
        i64::MAX
    } else {
        next as i64
    }
}

/// `v`, held to `i64::MAX`.
spec fn held(v: int) -> int {
    if v > i64::MAX {
        i64::MAX as int
    } else {
        v
    }
}

proof fn lemma_only_zeros_follow(s: Seq<char>, n: int)
    requires
        all_digits(s),
        n >= s.len(),
        spelled(s, s.len() as int) == 0,
    ensures
        spelled(s, n) == 0,
    decreases n,
{
    if n > s.len() {
        lemma_only_zeros_follow(s, n - 1);
    }
}

/// Nineteen zeros after the digits either leave nothing or go beyond a reading, and more of
/// them change neither.
proof fn lemma_far_is_held(s: Seq<char>, n: int)
    requires
        all_digits(s),
        n >= s.len() + 19,
    ensures
        held(spelled(s, n)) == held(spelled(s, (s.len() + 19) as int)),
{
    let k = s.len() as int;
    lemma_spelled_grows(s, 0, k);
    if spelled(s, k) == 0 {
        lemma_only_zeros_follow(s, n);
        lemma_only_zeros_follow(s, k + 19);
    } else {
        reveal_with_fuel(spelled, 20);
        assert(spelled(s, k + 19) == 10_000_000_000_000_000_000 * spelled(s, k));
        lemma_spelled_grows(s, k + 19, n);
    }
}

/// The number that the first `n` digits of `s` spell, held to the range of a reading.
fn spelled_reading(s: &[char], n: u128) -> (v: i64)
    requires
        all_digits(s@),
    ensures
        v == held(spelled(s@, n as int)),
        v >= 0,
{
    let there: usize = if n < s.len() as u128 {
        n as usize
    } else {
        s.len()
    };
    let beyond: u128 = n - there as u128;
    let zeros: u128 = if beyond < 19 {
        beyond
    } else {
        19
    };
    let mut v: i64 = 0;
    for i in 0..there
        invariant
            all_digits(s@),
            there <= s@.len(),
            v == held(spelled(s@, i as int)),
            v >= 0,
    {
        assert(is_digit(s@[i as int]));
        v = shifted(v, digit_of(s[i]));
        proof {
            lemma_spelled_grows(s@, i as int, i + 1);
        }
    }
    for j in 0..zeros
        invariant
            all_digits(s@),
            zeros > 0 ==> there == s@.len(),
            v == held(spelled(s@, there + j)),
            v >= 0,
    {
        v = shifted(v, 0);
        proof {
            lemma_spelled_grows(s@, there + j, there + j + 1);
        }
    }
    proof {
        if beyond > 19 {
            lemma_far_is_held(s@, n as int);
        }
    }
    v
}

/// Whether `s` is the lower-case `word`, in any case.
fn is_word(s: &[char], word: &str) -> (r: bool)
    requires
        forall|i: int| 0 <= i < word@.len() ==> 'a' <= #[trigger] word@[i] <= 'z',
    ensures
        r == ignoring_case(s@, word@),
{
    let w = chars_of(word);
    if s.len() != w.len() {
        return false;
    }
    for i in 0..s.len()
        invariant
            s@.len() == w@.len(),
            w@ == word@,
            forall|j: int| 0 <= j < word@.len() ==> 'a' <= #[trigger] word@[j] <= 'z',
            forall|j: int|
                0 <= j < i ==> #[trigger] s@[j] == w@[j] || s@[j] as int == w@[j] as int - 32,
    {
        proof {
            lemma_code_fits(s@[i as int]);
            lemma_code_fits(w@[i as int]);
        }
        if s[i] != w[i] && s[i] as u32 != w[i] as u32 - 32 {
            assert(s@[i as int] != w@[i as int]);
            return false;
        }
    }
    true
}

/// Whether `body` is infinity.
fn infinite(body: &[char]) -> (r: bool)
    ensures
        r == is_infinity(body@),
        r ==> body@.len() > 0,
{
    proof {
        reveal_strlit("inf");
        reveal_strlit("infinity");
    }
    is_word(body, "inf") || is_word(body, "infinity")
}

/// `s` without the sign that it begins with, where it does.
fn without_sign(s: &[char]) -> (r: Vec<char>)
    ensures
        r@ == unsigned_part(s@),
{
    let start: usize = if s.len() > 0 && (s[0] == '+' || s[0] == '-') {
        1
    } else {
        0
    };
    let r = part(s, start, s.len());
    assert(start == 1 ==> r@ =~= s@.drop_first());
    assert(start == 0 ==> r@ =~= s@);
    r
}

/// Whether `s` is the number that is none.
pub fn spells_nan(s: &[char]) -> (r: bool)
    ensures
        r == is_nan(s@),
{
    proof {
        reveal_strlit("nan");
    }
    is_word(&without_sign(s), "nan")
}

/// The digits of a decimal number and the place of its point among them.
fn digits_and_point(body: &[char]) -> (r: (Vec<char>, usize))
    ensures
        r.0@ == number_digits(body@),
        r.1 == find(body@, '.'),
        r.1 <= body@.len(),
{
    assert(body@.skip(0) =~= body@);
    let k: usize = position_from(body, 0, '.');
    let mut digits = part(body, 0, k);
    assert(digits@ =~= body@.take(k as int));
    if k < body.len() {
        let mut frac = part(body, k + 1, body.len());
        assert(frac@ =~= body@.skip(k + 1));
        digits.append(&mut frac);
    }
    assert(digits@ =~= number_digits(body@));
    (digits, k)
}

/// Read a number as billionths of its unit.
pub fn parse_number(s: &[char]) -> (r: Option<Reading>)
    ensures
        r == read_number(s@),
{
    let body = without_sign(s);
    let mut size: i64 = i64::MAX;
    if !infinite(&body) {
        assert(body@.skip(0) =~= body@);
        let small: usize = position_from(&body, 0, 'e');
        let large: usize = position_from(&body, 0, 'E');
        let mark: usize = if small <= large {
            small
        } else {
            large
        };
        let front = part(&body, 0, mark);
        assert(front@ =~= mantissa(body@));
        let (digits, k) = digits_and_point(&front);
        if digits.len() == 0 || !only_digits(&digits) {
            return None;
        }
        assert(front@.len() > 0);
        let mut n: u128 = k as u128 + 9;
        if mark < body.len() {
            let back = part(&body, mark + 1, body.len());
            assert(back@ =~= exponent(body@));
            let places = without_sign(&back);
            if places.len() == 0 || !only_digits(&places) {
                return None;
            }
            let far: u128 = spelled_up_to(&places, places.len(), FAR);
            if back[0] != '-' {
                n = n + far;
                proof {
                    if far == FAR {
                        lemma_far_is_held(digits@, n as int);
                        lemma_far_is_held(
                            digits@,
                            k + 9 + spelled(places@, places@.len() as int),
                        );
                    }
                }
            } else if far < n {
                n = n - far;
            } else {
                n = 0;
            }
        }
        size = spelled_reading(&digits, n);
    }
    if s[0] == '-' {
        Some(-size)
    } else {
        Some(size)
    }
}

// ---------------------------------------------------------------------------------------
// Laws
// ---------------------------------------------------------------------------------------

/// No character of `s` is white space.
pub open spec fn solid(s: Seq<char>) -> bool {
    forall|i: int| 0 <= i < s.len() ==> !is_space(#[trigger] s[i])
}

/// Every character of `s` is white space.
pub open spec fn blank(s: Seq<char>) -> bool {
    forall|i: int| 0 <= i < s.len() ==> is_space(#[trigger] s[i])
}

/// Blanks, tabs and line ends are white space; the printable characters of ASCII are not.
pub proof fn law_ascii_white_space(c: char)
    ensures
        is_space(' ') && is_space('\t') && is_space('\n') && is_space('\r'),
        '!' <= c <= '~' ==> !is_space(c),
{
}

proof fn lemma_blank_start(s: Seq<char>, t: Seq<char>)
    requires
        blank(s),
    ensures
        trim_start(s + t) == trim_start(t),
    decreases s.len(),
{
    if s.len() == 0 {
        assert(s + t =~= t);
    } else {
        assert((s + t)[0] == s[0]);
        assert((s + t).drop_first() =~= s.drop_first() + t);
        assert forall|i: int| 0 <= i < s.drop_first().len() implies is_space(
            #[trigger] s.drop_first()[i],
        ) by {
            assert(s.drop_first()[i] == s[i + 1]);
        }
        lemma_blank_start(s.drop_first(), t);
    }
}

proof fn lemma_blank_end(s: Seq<char>, t: Seq<char>)
    requires
        blank(t),
    ensures
        trim_end(s + t) == trim_end(s),
    decreases t.len(),
{
    if t.len() == 0 {
        assert(s + t =~= s);
    } else {
        assert((s + t).last() == t[t.len() - 1]);
        assert((s + t).drop_last() =~= s + t.drop_last());
        assert forall|i: int| 0 <= i < t.drop_last().len() implies is_space(
            #[trigger] t.drop_last()[i],
        ) by {
            assert(t.drop_last()[i] == t[i]);
        }
        lemma_blank_end(s, t.drop_last());
    }
}

/// Trimming takes off the white space round a text and nothing else: a text that neither
/// begins nor ends with white space comes back whole from between any amount of it, and a
/// text of white space alone comes back empty.
pub proof fn law_trimming_takes_off_the_white_space_round(
    before: Seq<char>,
    text: Seq<char>,
    after: Seq<char>,
)
    requires
        blank(before),
        blank(after),
        text.len() > 0 ==> !is_space(text[0]) && !is_space(text.last()),
    ensures
        trim(before + text + after) == text,
{
    assert(before + text + after =~= before + (text + after));
    lemma_blank_start(before, text + after);
    if text.len() > 0 {
        assert((text + after)[0] == text[0]);
        assert(trim_start(text + after) == text + after);
        lemma_blank_end(text, after);
        assert(trim_end(text) == text);
    } else {
        assert(text + after =~= after + text);
        lemma_blank_start(after, text);
        assert(trim_start(text) == text);
        assert(trim_end(text) == text);
    }
}

/// A text begins with any other that it was continued from, and what follows is what it was
/// continued with; and a text that differs from a prefix in some place does not begin with it.
pub proof fn law_a_prefix_and_what_follows(prefix: Seq<char>, rest: Seq<char>, s: Seq<char>, i: int)
    ensures
        has_prefix(prefix + rest, prefix),
        after_prefix(prefix + rest, prefix) == Some(rest),
        0 <= i < prefix.len() && (i >= s.len() || s[i] != prefix[i]) ==> !has_prefix(s, prefix)
            && after_prefix(s, prefix) is None,
{
    assert((prefix + rest).take(prefix.len() as int) =~= prefix);
    assert((prefix + rest).skip(prefix.len() as int) =~= rest);
    if 0 <= i < prefix.len() && has_prefix(s, prefix) {
        assert(s.take(prefix.len() as int)[i] == s[i]);
    }
}

/// A character that does not occur in the text before it is found right behind that text; one
/// that does not occur at all is found at the end.
pub proof fn law_the_first_occurrence_is_found(before: Seq<char>, c: char, rest: Seq<char>)
    requires
        !before.contains(c),
    ensures
        find(before + seq![c] + rest, c) == before.len(),
        find(before, c) == before.len(),
    decreases before.len(),
{
    let s = before + seq![c] + rest;
    if before.len() > 0 {
        assert(s[0] == before[0]);
        assert(before.contains(before[0]));
        let tail = before.drop_first();
        assert forall|x: char| tail.contains(x) implies before.contains(x) by {
            let k = choose|k: int| 0 <= k < tail.len() && tail[k] == x;
            assert(before[k + 1] == x);
        }
        law_the_first_occurrence_is_found(tail, c, rest);
        assert(s.drop_first() =~= tail + seq![c] + rest);
    } else {
        assert(s[0] == c);
    }
}

/// Splitting undoes joining: a piece without the separator, the separator and a rest split
/// into that piece and the pieces of the rest, and a text without the separator is one piece.
pub proof fn law_splitting_undoes_joining(piece: Seq<char>, c: char, rest: Seq<char>)
    requires
        !piece.contains(c),
    ensures
        split_on(piece + seq![c] + rest, c) == seq![piece] + split_on(rest, c),
        split_on(piece, c) == seq![piece],
{
    let s = piece + seq![c] + rest;
    law_the_first_occurrence_is_found(piece, c, rest);
    assert(s.take(piece.len() as int) =~= piece);
    assert(s.skip(piece.len() as int + 1) =~= rest);
}

/// The lines of a text are what stands between its line feeds: a line without one, a line
/// feed and a rest are that line and the lines of the rest. A carriage return before the line
/// feed belongs to the line end. What follows the last line feed is a line unless it is empty.
pub proof fn law_lines_end_at_line_feeds(line: Seq<char>, rest: Seq<char>)
    requires
        !line.contains('\n'),
    ensures
        line.len() == 0 || line.last() != '\r' ==> lines(line + seq!['\n'] + rest) == seq![line]
            + lines(rest),
        lines(line.push('\r') + seq!['\n'] + rest) == seq![line] + lines(rest),
        line.len() > 0 ==> lines(line) == seq![line],
        lines(Seq::empty()) == Seq::<Seq<char>>::empty(),
{
    let s = line + seq!['\n'] + rest;
    law_the_first_occurrence_is_found(line, '\n', rest);
    assert(s.take(line.len() as int) =~= line);
    assert(s.skip(line.len() as int + 1) =~= rest);
    let with = line.push('\r');
    if with.contains('\n') {
        let k = choose|k: int| 0 <= k < with.len() && with[k] == '\n';
        assert(line[k] == '\n');
    }
    let t = with + seq!['\n'] + rest;
    law_the_first_occurrence_is_found(with, '\n', rest);
    assert(t.take(with.len() as int) =~= with);
    assert(t.skip(with.len() as int + 1) =~= rest);
    assert(with.drop_last() =~= line);
}

/// The words of a text are its runs without white space: leading white space makes no word,
/// and a word followed by white space, or by nothing, is the first word of the text, the
/// others being those of the rest.
pub proof fn law_words_are_the_runs_between_white_space(
    before: Seq<char>,
    word: Seq<char>,
    rest: Seq<char>,
)
    requires
        blank(before),
        solid(word),
        word.len() > 0,
        rest.len() > 0 ==> is_space(rest[0]),
    ensures
        words(before + word + rest) == seq![word] + words(rest),
        words(before) == Seq::<Seq<char>>::empty(),
{
    let s = before + word + rest;
    assert(s =~= before + (word + rest));
    lemma_blank_start(before, word + rest);
    let t = word + rest;
    assert(t[0] == word[0]);
    assert(trim_start(t) == t);
    lemma_word_run(word, rest);
    assert(t.take(word.len() as int) =~= word);
    assert(t.skip(word.len() as int) =~= rest);
    let none = Seq::<char>::empty();
    assert(before + none =~= before);
    lemma_blank_start(before, none);
}

proof fn lemma_word_run(word: Seq<char>, rest: Seq<char>)
    requires
        solid(word),
        rest.len() > 0 ==> is_space(rest[0]),
    ensures
        word_len(word + rest) == word.len(),
    decreases word.len(),
{
    let t = word + rest;
    if word.len() > 0 {
        assert(t[0] == word[0]);
        assert(t.drop_first() =~= word.drop_first() + rest);
        assert forall|i: int| 0 <= i < word.drop_first().len() implies !is_space(
            #[trigger] word.drop_first()[i],
        ) by {
            assert(word.drop_first()[i] == word[i + 1]);
        }
        lemma_word_run(word.drop_first(), rest);
    } else {
        assert(t =~= rest);
    }
}

/// A digit at the end of a number is its units: the number before it counts tenfold.
pub proof fn law_digits_count_by_tens(digits: Seq<char>, d: char)
    requires
        is_digit(d),
    ensures
        spelled(digits.push(d), (digits.len() + 1) as int) == 10 * spelled(digits, digits.len() as int) + (
        d as int - '0' as int),
        spelled(Seq::empty(), 0) == 0,
{
    lemma_spelled_prefix(digits, d, digits.len() as int);
}

proof fn lemma_spelled_prefix(s: Seq<char>, d: char, n: int)
    requires
        n <= s.len(),
    ensures
        spelled(s.push(d), n) == spelled(s, n),
    decreases n,
{
    if n > 0 {
        lemma_spelled_prefix(s, d, n - 1);
    }
}

/// An unsigned number is what its digits spell, of whatever count, with a plus before them or
/// not, as long as it fits 32 bits; what holds anything but digits is no such number, nor is
/// nothing.
pub proof fn law_unsigned_numbers_are_their_digits(s: Seq<char>)
    ensures
        s.len() > 0 && all_digits(s) && spelled(s, s.len() as int) <= u32::MAX ==> {
            &&& read_u32(s) matches Some(v) && v == spelled(s, s.len() as int)
            &&& read_u32(seq!['+'] + s) == read_u32(s)
        },
        all_digits(s) && spelled(s, s.len() as int) > u32::MAX ==> read_u32(s) is None,
        s.len() == 0 ==> read_u32(s) is None,
        forall|i: int|
            0 <= i < s.len() && !is_digit(#[trigger] s[i]) && !(i == 0 && s[i] == '+') ==> read_u32(s)
                is None,
{
    let plus = seq!['+'] + s;
    assert(plus.drop_first() =~= s);
    if s.len() > 0 && all_digits(s) {
        assert(is_digit(s[0]));
        assert(s[0] != '+');
        lemma_spelled_grows(s, 0, s.len() as int);
    }
    assert forall|i: int|
        0 <= i < s.len() && !is_digit(#[trigger] s[i]) && !(i == 0 && s[i] == '+') implies read_u32(s)
        is None by {
        if s[0] == '+' {
            let d = s.drop_first();
            assert(d[i - 1] == s[i]);
            assert(!all_digits(d));
        }
    }
}

/// A short run of digits always fits.
pub proof fn law_short_numbers_are_read(s: Seq<char>)
    requires
        0 < s.len() <= 9,
        all_digits(s),
    ensures
        read_u32(s) is Some,
{
    reveal_with_fuel(spelled, 10);
    assert forall|i: int| 0 <= i < s.len() implies 0 <= digit_value(#[trigger] s[i]) <= 9 by {
        assert(is_digit(s[i]));
    }
    if s[0] == '+' {
        assert(is_digit(s[0]));
    }
    lemma_spelled_at_most(s, s.len() as int);
}

proof fn lemma_spelled_at_most(s: Seq<char>, n: int)
    requires
        all_digits(s),
        0 <= n <= 9,
    ensures
        0 <= spelled(s, n) <= 999_999_999,
        n == 0 ==> spelled(s, n) <= 0,
        n == 1 ==> spelled(s, n) <= 9,
        n == 2 ==> spelled(s, n) <= 99,
        n == 3 ==> spelled(s, n) <= 999,
        n == 4 ==> spelled(s, n) <= 9_999,
        n == 5 ==> spelled(s, n) <= 99_999,
        n == 6 ==> spelled(s, n) <= 999_999,
        n == 7 ==> spelled(s, n) <= 9_999_999,
        n == 8 ==> spelled(s, n) <= 99_999_999,
    decreases n,
{
    if n > 0 {
        lemma_spelled_at_most(s, n - 1);
        if n - 1 < s.len() {
            assert(is_digit(s[n - 1]));
        }
    }
}

/// A plain decimal number is its digits: whole digits, a point and at most nine more read as
/// the number that they all spell, in billionths, a minus making it negative; and the point
/// may be left out with nothing behind it.
pub proof fn law_decimal_numbers_are_their_digits(whole: Seq<char>, frac: Seq<char>)
    requires
        all_digits(whole),
        all_digits(frac),
        whole.len() > 0,
        frac.len() <= 9,
        spelled(whole + frac, (whole.len() + 9) as int) <= i64::MAX,
    ensures
        ({
            let value = spelled(whole + frac, (whole.len() + 9) as int);
            let text = whole + seq!['.'] + frac;
            &&& read_number(text) matches Some(v) && v == value
            &&& read_number(seq!['-'] + text) matches Some(v) && v == -value
            &&& frac.len() == 0 ==> read_number(whole) == read_number(text)
        }),
{
    let text = whole + seq!['.'] + frac;
    let minus = seq!['-'] + text;
    assert(is_digit(whole[0]));
    assert(text[0] == whole[0]);
    assert(minus.drop_first() =~= text);
    assert(unsigned_part(text) == text);
    assert(unsigned_part(minus) == text);
    lemma_plain_decimal(whole, frac);
    lemma_spelled_grows_pair(whole, frac);
    if frac.len() == 0 {
        assert(unsigned_part(whole) == whole);
        lemma_whole_number(whole);
        assert(whole + frac =~= whole);
    }
}

proof fn lemma_spelled_grows_pair(whole: Seq<char>, frac: Seq<char>)
    requires
        all_digits(whole),
        all_digits(frac),
    ensures
        all_digits(whole + frac),
        spelled(whole + frac, (whole.len() + 9) as int) >= 0,
{
    let s = whole + frac;
    assert forall|i: int| 0 <= i < s.len() implies is_digit(#[trigger] s[i]) by {
        if i < whole.len() {
            assert(s[i] == whole[i]);
        } else {
            assert(s[i] == frac[i - whole.len()]);
        }
    }
    lemma_spelled_grows(s, 0, (whole.len() + 9) as int);
}

/// A text of digits, with a point or without, has no exponent and is no word.
proof fn lemma_no_letters(s: Seq<char>)
    requires
        s.len() > 0,
        forall|i: int| 0 <= i < s.len() ==> is_digit(#[trigger] s[i]) || s[i] == '.',
    ensures
        exponent_mark(s) == s.len(),
        mantissa(s) == s,
        !is_infinity(s),
{
    if s.contains('e') {
        let k = choose|k: int| 0 <= k < s.len() && s[k] == 'e';
        assert(is_digit(s[k]) || s[k] == '.');
    }
    if s.contains('E') {
        let k = choose|k: int| 0 <= k < s.len() && s[k] == 'E';
        assert(is_digit(s[k]) || s[k] == '.');
    }
    law_the_first_occurrence_is_found(s, 'e', s);
    law_the_first_occurrence_is_found(s, 'E', s);
    assert(s.take(s.len() as int) =~= s);
    reveal_strlit("inf");
    reveal_strlit("infinity");
    assert(is_digit(s[0]) || s[0] == '.');
}

proof fn lemma_plain_decimal(whole: Seq<char>, frac: Seq<char>)
    requires
        all_digits(whole),
        all_digits(frac),
        whole.len() > 0,
    ensures
        ({
            let s = whole + seq!['.'] + frac;
            &&& is_decimal(s)
            &&& !is_infinity(s)
            &&& exponent_value(s) == 0
            &&& find(mantissa(s), '.') == whole.len()
            &&& number_digits(mantissa(s)) == whole + frac
        }),
{
    let s = whole + seq!['.'] + frac;
    assert forall|i: int| 0 <= i < s.len() implies is_digit(#[trigger] s[i]) || s[i] == '.' by {
        if i < whole.len() {
            assert(s[i] == whole[i]);
        } else if i > whole.len() {
            assert(s[i] == frac[i - whole.len() - 1]);
        }
    }
    lemma_no_letters(s);
    if whole.contains('.') {
        let k = choose|k: int| 0 <= k < whole.len() && whole[k] == '.';
        assert(is_digit(whole[k]));
    }
    law_the_first_occurrence_is_found(whole, '.', frac);
    assert(s.take(whole.len() as int) =~= whole);
    assert(s.skip(whole.len() as int + 1) =~= frac);
    lemma_spelled_grows_pair(whole, frac);
}

proof fn lemma_whole_number(s: Seq<char>)
    requires
        all_digits(s),
        s.len() > 0,
    ensures
        is_decimal(s),
        !is_infinity(s),
        exponent_value(s) == 0,
        find(mantissa(s), '.') == s.len(),
        number_digits(mantissa(s)) == s,
{
    assert forall|i: int| 0 <= i < s.len() implies is_digit(#[trigger] s[i]) || s[i] == '.' by {}
    lemma_no_letters(s);
    if s.contains('.') {
        let k = choose|k: int| 0 <= k < s.len() && s[k] == '.';
        assert(is_digit(s[k]));
    }
    law_the_first_occurrence_is_found(s, '.', s);
}

/// The white space of Unicode, by its code points.
pub proof fn law_white_space_by_code_point(c: char)
    ensures
        ({
            let p = c as int;
            is_space(c) <==> 9 <= p <= 13 || p == 32 || p == 133 || p == 160 || p == 5_760 || 8_192
                <= p <= 8_202 || p == 8_232 || p == 8_233 || p == 8_239 || p == 8_287 || p
                == 12_288
        }),
{
}

} // verus!
