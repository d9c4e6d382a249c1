//! Parsing of integers, booleans and floating-point literals from text, with
//! the grammar of std's `FromStr` implementations stated as spec functions.
use vstd::prelude::*;
use crate::text::chars_of;

verus! {

/// `c` is a digit in base `radix` (10 or 16).
pub open spec fn is_radix_digit(c: char, radix: nat) -> bool {
    ('0' <= c && c <= '9') || (radix == 16 && (('a' <= c && c <= 'f') || ('A' <= c && c <= 'F')))
}

/// The value of the digit `c` in base `radix`.
pub open spec fn digit_value(c: char, radix: nat) -> nat {
    if '0' <= c && c <= '9' {
        (c as int - '0' as int) as nat
    } else if 'a' <= c && c <= 'f' {
        (c as int - 'a' as int + 10) as nat
    } else {
        (c as int - 'A' as int + 10) as nat
    }
}

pub open spec fn all_radix_digits(s: Seq<char>, radix: nat) -> bool {
    forall|i: int| 0 <= i < s.len() ==> #[trigger] is_radix_digit(s[i], radix)
}

/// The number the digits `s` write in base `radix`.
pub open spec fn digits_value(s: Seq<char>, radix: nat) -> nat
    decreases s.len(),
{
    if s.len() == 0 {
        0
    } else {
        digits_value(s.drop_last(), radix) * radix + digit_value(s.last(), radix)
    }
}

/// The magnitude written by the digits `s`, when there is at least one digit,
/// all are digits and the number is at most `limit`.
pub open spec fn spec_magnitude(s: Seq<char>, radix: nat, limit: nat) -> Option<nat> {
    if s.len() > 0 && all_radix_digits(s, radix) && digits_value(s, radix) <= limit {
        Some(digits_value(s, radix))
    } else {
        None
    }
}

/// What std's `i64::from_str` accepts and gives: an optional sign, then one or
/// more decimal digits, with the value in range.
pub open spec fn spec_parse_i64(s: Seq<char>) -> Option<i64> {
    if s.len() > 0 && s[0] == '-' {
        match spec_magnitude(s.drop_first(), 10, 0x8000_0000_0000_0000) {
            Some(m) => Some((0 - m) as i64),
            None => None,
        }
    } else {
        let rest = if s.len() > 0 && s[0] == '+' { s.drop_first() } else { s };
        match spec_magnitude(rest, 10, 0x7fff_ffff_ffff_ffff) {
            Some(m) => Some(m as i64),
            None => None,
        }
    }
}

/// What std's `i32::from_str` accepts and gives: the same text as for `i64`,
/// with the value in the range of `i32`.
pub open spec fn spec_parse_i32(s: Seq<char>) -> Option<i32> {
    if s.len() > 0 && s[0] == '-' {
        match spec_magnitude(s.drop_first(), 10, 0x8000_0000) {
            Some(m) => Some((0 - m) as i32),
            None => None,
        }
    } else {
        let rest = if s.len() > 0 && s[0] == '+' { s.drop_first() } else { s };
        match spec_magnitude(rest, 10, 0x7fff_ffff) {
            Some(m) => Some(m as i32),
            None => None,
        }
    }
}

/// What std's unsigned `from_str_radix` accepts and gives, for a type whose
/// largest value is `max`: an optional `+`, then one or more digits, with the
/// value at most `max`.
pub open spec fn spec_parse_unsigned(s: Seq<char>, radix: nat, max: nat) -> Option<nat> {
    let rest = if s.len() > 0 && s[0] == '+' { s.drop_first() } else { s };
    spec_magnitude(rest, radix, max)
}

proof fn lemma_digits_value_push(s: Seq<char>, c: char, radix: nat)
    ensures
        digits_value(s.push(c), radix) == digits_value(s, radix) * radix + digit_value(c, radix),
{
    assert(s.push(c).drop_last() =~= s);
}

/// Reads the digits `cs[start..]` in base `radix`, giving their value when it
/// is at most `limit`.
fn magnitude(cs: &[char], start: usize, radix: u32, limit: u128) -> (r: Option<u128>)
    requires
        radix == 10 || radix == 16,
        start <= cs@.len(),
        limit < 0x1_0000_0000_0000_0000_0000,
    ensures
        match spec_magnitude(cs@.skip(start as int), radix as nat, limit as nat) {
            Some(m) => r == Some(m as u128),
            None => r is None,
        },
{
    let ghost s = cs@.skip(start as int);
    if start == cs.len() {
        return None;
    }
    let mut mag: u128 = 0;
    let mut over = false;
    let mut i = start;
    while i < cs.len()
        invariant
            start <= i <= cs@.len(),
            s == cs@.skip(start as int),
            radix == 10 || radix == 16,
            limit < 0x1_0000_0000_0000_0000_0000,
            all_radix_digits(s.take(i - start), radix as nat),
            !over ==> mag == digits_value(s.take(i - start), radix as nat) && mag <= limit,
            over ==> digits_value(s.take(i - start), radix as nat) > limit,
        decreases cs@.len() - i,
    {
        let c = cs[i];
        let is_digit = ('0' <= c && c <= '9') || (radix == 16 && (('a' <= c && c <= 'f') || ('A' <= c
            && c <= 'F')));
        if !is_digit {
            assert(s[i - start] == c);
            assert(!is_radix_digit(s[i - start], radix as nat));
            assert(!all_radix_digits(s, radix as nat));
            return None;
        }
        let d: u128 = if '0' <= c && c <= '9' {
            (c as u32 - '0' as u32) as u128
        } else if 'a' <= c && c <= 'f' {
            (c as u32 - 'a' as u32 + 10) as u128
        } else {
            (c as u32 - 'A' as u32 + 10) as u128
        };
        proof {
            assert(s.take(i + 1 - start) =~= s.take(i - start).push(c));
            lemma_digits_value_push(s.take(i - start), c, radix as nat);
        }
        if !over {
            let next = if radix == 10 { mag * 10 + d } else { mag * 16 + d };
            if next > limit {
                over = true;
            } else {
                mag = next;
            }
        }
        i = i + 1;
    }
    assert(s.take(cs@.len() - start) =~= s);
    if over {
        None
    } else {
        Some(mag)
    }
}

/// Parses a signed decimal `i64` as std's `str::parse::<i64>` does.
pub fn parse_i64(s: &str) -> (r: Option<i64>)
    ensures
        r == spec_parse_i64(s@),
{
    let cs = chars_of(s);
    if cs.len() > 0 && cs[0] == '-' {
        assert(cs@.skip(1) =~= s@.drop_first());
        match magnitude(cs.as_slice(), 1, 10, 0x8000_0000_0000_0000) {
            Some(m) => Some((0 - m as i128) as i64),
            None => None,
        }
    } else {
        let start: usize = if cs.len() > 0 && cs[0] == '+' { 1 } else { 0 };
        assert(cs@.skip(1) =~= s@.drop_first());
        assert(cs@.skip(0) =~= s@);
        match magnitude(cs.as_slice(), start, 10, 0x7fff_ffff_ffff_ffff) {
            Some(m) => Some(m as i64),
            None => None,
        }
    }
}

/// Parses a signed decimal `i32` as std's `str::parse::<i32>` does.
pub fn parse_i32(s: &str) -> (r: Option<i32>)
    ensures
        r == spec_parse_i32(s@),
{
    let cs = chars_of(s);
    if cs.len() > 0 && cs[0] == '-' {
        assert(cs@.skip(1) =~= s@.drop_first());
        match magnitude(cs.as_slice(), 1, 10, 0x8000_0000) {
            Some(m) => Some((0 - m as i64) as i32),
            None => None,
        }
    } else {
        let start: usize = if cs.len() > 0 && cs[0] == '+' { 1 } else { 0 };
        assert(cs@.skip(1) =~= s@.drop_first());
        assert(cs@.skip(0) =~= s@);
        match magnitude(cs.as_slice(), start, 10, 0x7fff_ffff) {
            Some(m) => Some(m as i32),
            None => None,
        }
    }
}

/// Parses an unsigned number in base `radix` no larger than `max`, as std's
/// `from_str_radix` does for an unsigned type whose largest value is `max`.
pub fn parse_unsigned(s: &str, radix: u32, max: u64) -> (r: Option<u64>)
    requires
        radix == 10 || radix == 16,
    ensures
        match spec_parse_unsigned(s@, radix as nat, max as nat) {
            Some(m) => r == Some(m as u64),
            None => r is None,
        },
{
    let cs = chars_of(s);
    let start: usize = if cs.len() > 0 && cs[0] == '+' { 1 } else { 0 };
    assert(cs@.skip(1) =~= s@.drop_first());
    assert(cs@.skip(0) =~= s@);
    match magnitude(cs.as_slice(), start, radix, max as u128) {
        Some(m) => Some(m as u64),
        None => None,
    }
}

/// ASCII lower-casing of one character.
pub open spec fn ascii_lower(c: char) -> char {
    if 'A' <= c && c <= 'Z' {
        ((c as u32) + 32) as char
    } else {
        c
    }
}

/// ASCII lower-casing of text (std's `str::to_ascii_lowercase`).
pub open spec fn ascii_lowercase(s: Seq<char>) -> Seq<char> {
    s.map_values(|c: char| ascii_lower(c))
}

pub open spec fn true_text() -> Seq<char> {
    seq!['t', 'r', 'u', 'e']
}

pub open spec fn false_text() -> Seq<char> {
    seq!['f', 'a', 'l', 's', 'e']
}

/// What `value.to_ascii_lowercase().parse::<bool>()` gives: `true` and `false`
/// in any ASCII case, nothing else.
pub open spec fn spec_parse_bool(s: Seq<char>) -> Option<bool> {
    if ascii_lowercase(s) == true_text() {
        Some(true)
    } else if ascii_lowercase(s) == false_text() {
        Some(false)
    } else {
        None
    }
}

/// ASCII lower-casing of one character: 'A'..='Z' become 'a'..='z', every
/// other character stays.
fn lower_char(c: char) -> (r: char)
    ensures
        r == ascii_lower(c),
{
    if 'A' <= c && c <= 'Z' {
        let b = c as u8;
        assert(b as u32 == c as u32);
        ((b + 32) as char)
    } else {
        c
    }
}

/// ASCII lower-casing of a character sequence.
pub fn lowercase_ascii_chars(cs: &[char]) -> (r: Vec<char>)
    ensures
        r@ == ascii_lowercase(cs@),
{
    let mut r: Vec<char> = Vec::new();
    let mut i: usize = 0;
    while i < cs.len()
        invariant
            i <= cs@.len(),
            r@ == ascii_lowercase(cs@.take(i as int)),
        decreases cs@.len() - i,
    {
        r.push(lower_char(cs[i]));
        i = i + 1;
        assert(r@ =~= ascii_lowercase(cs@.take(i as int)));
    }
    assert(cs@.take(cs@.len() as int) =~= cs@);
    r
}

/// `a` and `b` hold the same characters.
pub fn chars_eq(a: &[char], b: &[char]) -> (r: bool)
    ensures
        r == (a@ == b@),
{
    if a.len() != b.len() {
        return false;
    }
    let mut i: usize = 0;
    while i < a.len()
        invariant
            i <= a@.len(),
            a@.len() == b@.len(),
            a@.take(i as int) == b@.take(i as int),
        decreases a@.len() - i,
    {
        if a[i] != b[i] {
            return false;
        }
        i = i + 1;
        assert(a@.take(i as int) =~= a@.take(i - 1).push(a@[i - 1]));
        assert(b@.take(i as int) =~= b@.take(i - 1).push(b@[i - 1]));
    }
    assert(a@ =~= a@.take(a@.len() as int));
    assert(b@ =~= b@.take(b@.len() as int));
    true
}

/// Parses a boolean as `value.to_ascii_lowercase().parse::<bool>()` does.
pub fn parse_bool(s: &str) -> (r: Option<bool>)
    ensures
        r == spec_parse_bool(s@),
{
    let cs = chars_of(s);
    let lower = lowercase_ascii_chars(cs.as_slice());
    let t = vec!['t', 'r', 'u', 'e'];
    let f = vec!['f', 'a', 'l', 's', 'e'];
    assert(t@ =~= true_text());
    assert(f@ =~= false_text());
    if chars_eq(lower.as_slice(), t.as_slice()) {
        Some(true)
    } else if chars_eq(lower.as_slice(), f.as_slice()) {
        Some(false)
    } else {
        None
    }
}

pub open spec fn is_dec_digit(c: char) -> bool {
    '0' <= c && c <= '9'
}

pub open spec fn is_sign(c: char) -> bool {
    c == '+' || c == '-'
}

/// The number of decimal digits at the front of `s`.
pub open spec fn leading_digits(s: Seq<char>) -> nat
    decreases s.len(),
{
    if s.len() > 0 && is_dec_digit(s[0]) {
        1 + leading_digits(s.drop_first())
    } else {
        0
    }
}

/// `s` without a leading sign.
pub open spec fn unsigned_part(s: Seq<char>) -> Seq<char> {
    if s.len() > 0 && is_sign(s[0]) {
        s.drop_first()
    } else {
        s
    }
}

/// The exponent digits after `e`: an optional sign, then one or more digits.
pub open spec fn spec_exponent_ok(s: Seq<char>) -> bool {
    let r = unsigned_part(s);
    r.len() > 0 && leading_digits(r) == r.len()
}

/// `Digit+ | Digit+ '.' Digit* | Digit* '.' Digit+`, then an optional exponent.
pub open spec fn spec_number_ok(s: Seq<char>) -> bool {
    let a = leading_digits(s);
    let r1 = s.skip(a as int);
    let has_point = r1.len() > 0 && r1[0] == '.';
    let b = if has_point { leading_digits(r1.drop_first()) } else { 0 };
    let r2 = if has_point { r1.drop_first().skip(b as int) } else { r1 };
    a + b >= 1 && (r2.len() == 0 || (ascii_lower(r2[0]) == 'e' && spec_exponent_ok(r2.drop_first())))
}

pub open spec fn inf_text() -> Seq<char> {
    seq!['i', 'n', 'f']
}

pub open spec fn infinity_text() -> Seq<char> {
    seq!['i', 'n', 'f', 'i', 'n', 'i', 't', 'y']
}

pub open spec fn nan_text() -> Seq<char> {
    seq!['n', 'a', 'n']
}

/// The strings that std's `f32::from_str` accepts: an optional sign, then
/// `inf`, `infinity` or `nan` in any case, or a decimal number with an optional
/// exponent.
pub open spec fn spec_is_float(s: Seq<char>) -> bool {
    let r = unsigned_part(s);
    let l = ascii_lowercase(r);
    l == inf_text() || l == infinity_text() || l == nan_text() || spec_number_ok(r)
}

/// The number of decimal digits in `cs` from `start` on, up to the first
/// non-digit.
fn count_digits(cs: &[char], start: usize) -> (n: usize)
    requires
        start <= cs@.len(),
    ensures
        n as nat == leading_digits(cs@.skip(start as int)),
        start + n <= cs.len(),
{
    let mut i = start;
    while i < cs.len() && '0' <= cs[i] && cs[i] <= '9'
        invariant
            start <= i <= cs@.len(),
            leading_digits(cs@.skip(start as int)) == (i - start) + leading_digits(
                cs@.skip(i as int),
            ),
        decreases cs@.len() - i,
    {
        assert(cs@.skip(i as int).drop_first() =~= cs@.skip(i + 1));
        i = i + 1;
    }
    i - start
}

fn is_exponent(cs: &[char], start: usize) -> (r: bool)
    requires
        start <= cs@.len(),
    ensures
        r == spec_exponent_ok(cs@.skip(start as int)),
{
    let s = if start < cs.len() && (cs[start] == '+' || cs[start] == '-') {
        start + 1
    } else {
        start
    };
    if start < cs.len() {
        assert(cs@.skip(start as int).drop_first() =~= cs@.skip(start + 1));
    }
    let n = count_digits(cs, s);
    s < cs.len() && s + n == cs.len()
}

fn is_number(cs: &[char], start: usize) -> (r: bool)
    requires
        start <= cs@.len(),
    ensures
        r == spec_number_ok(cs@.skip(start as int)),
{
    let ghost s0 = cs@.skip(start as int);
    let a = count_digits(cs, start);
    let p = start + a;
    assert(s0.skip(a as int) =~= cs@.skip(p as int));
    let has_point = p < cs.len() && cs[p] == '.';
    let b: usize = if has_point {
        assert(cs@.skip(p as int).drop_first() =~= cs@.skip(p + 1));
        count_digits(cs, p + 1)
    } else {
        0
    };
    let q = if has_point { p + 1 + b } else { p };
    assert(has_point ==> cs@.skip(p as int).drop_first().skip(b as int) =~= cs@.skip(q as int));
    if a + b < 1 {
        return false;
    }
    if q == cs.len() {
        return true;
    }
    assert(cs@.skip(q as int)[0] == cs@[q as int]);
    assert(cs@.skip(q as int).drop_first() =~= cs@.skip(q + 1));
    (cs[q] == 'e' || cs[q] == 'E') && is_exponent(cs, q + 1)
}

/// Whether std's `str::parse::<f32>` accepts `s`.
pub fn is_float(s: &str) -> (r: bool)
    ensures
        r == spec_is_float(s@),
{
    let cs = chars_of(s);
    let start: usize = if cs.len() > 0 && (cs[0] == '+' || cs[0] == '-') { 1 } else { 0 };
    assert(cs@.skip(1) =~= s@.drop_first());
    assert(cs@.skip(0) =~= s@);
    let mut rest: Vec<char> = Vec::new();
    let mut i = start;
    while i < cs.len()
        invariant
            start <= i <= cs@.len(),
            rest@ == cs@.subrange(start as int, i as int),
        decreases cs@.len() - i,
    {
        rest.push(cs[i]);
        i = i + 1;
        assert(rest@ =~= cs@.subrange(start as int, i as int));
    }
    assert(rest@ =~= unsigned_part(s@));
    let lower = lowercase_ascii_chars(rest.as_slice());
    let inf = vec!['i', 'n', 'f'];
    let infinity = vec!['i', 'n', 'f', 'i', 'n', 'i', 't', 'y'];
    let nan = vec!['n', 'a', 'n'];
    assert(inf@ =~= inf_text());
    assert(infinity@ =~= infinity_text());
    assert(nan@ =~= nan_text());
    if chars_eq(lower.as_slice(), inf.as_slice()) || chars_eq(lower.as_slice(), infinity.as_slice())
        || chars_eq(lower.as_slice(), nan.as_slice()) {
        return true;
    }
    is_number(cs.as_slice(), start)
}

proof fn lemma_digit_char(d: nat)
    requires
        d < 10,
    ensures
        is_radix_digit(crate::text::digit_char(d), 10),
        digit_value(crate::text::digit_char(d), 10) == d,
{
}

/// The decimal text of `m` is digits only, and they write `m`.
pub proof fn lemma_nat_text(m: nat)
    ensures
        crate::text::nat_text(m).len() > 0,
        all_radix_digits(crate::text::nat_text(m), 10),
        digits_value(crate::text::nat_text(m), 10) == m,
    decreases m,
{
    let t = crate::text::nat_text(m);
    if m < 10 {
        lemma_digit_char(m);
        assert(t.drop_last() =~= Seq::<char>::empty());
        assert(digits_value(t, 10) == digits_value(t.drop_last(), 10) * 10 + digit_value(t.last(), 10));
        assert(digits_value(t.drop_last(), 10) == 0);
    } else {
        lemma_nat_text(m / 10);
        lemma_digit_char(m % 10);
        let p = crate::text::nat_text(m / 10);
        assert(t == p.push(crate::text::digit_char(m % 10)));
        assert(t.drop_last() =~= p);
        assert forall|i: int| 0 <= i < t.len() implies #[trigger] is_radix_digit(t[i], 10) by {
            if i < p.len() {
                assert(t[i] == p[i]);
            }
        }
        assert(digits_value(t, 10) == digits_value(p, 10) * 10 + digit_value(t.last(), 10));
        assert((m / 10) * 10 + m % 10 == m) by (nonlinear_arith);
    }
}

/// Writing an `i64` in decimal and reading it back gives it again.
pub proof fn lemma_parse_int_text(n: i64)
    ensures
        spec_parse_i64(crate::text::int_text(n as int)) == Some(n),
{
    let s = crate::text::int_text(n as int);
    if n < 0 {
        let m = (-n) as nat;
        lemma_nat_text(m);
        assert(s.drop_first() =~= crate::text::nat_text(m));
        assert(s[0] == '-');
    } else {
        let m = n as nat;
        lemma_nat_text(m);
        let t = crate::text::nat_text(m);
        assert(is_radix_digit(t[0], 10));
        assert(s[0] != '-' && s[0] != '+');
    }
}

} // verus!
