//! Character-level helpers shared by the parsers and renderers.
use vstd::prelude::*;

verus! {

/// Appends one character to a `String` (std's `String::push`).
#[verifier::external_body]
pub(crate) fn push_char(s: &mut String, c: char)
    ensures
        final(s)@ == old(s)@.push(c),
{
    s.push(c);
}

/// The characters of `s`, in order.
pub fn chars_of(s: &str) -> (v: Vec<char>)
    ensures
        v@ == s@,
{
    let mut v: Vec<char> = Vec::new();
    for c in it: s.chars()
        invariant
            v@ == it.seq().take(it.index()),
            it.seq() == s@,
    {
        v.push(c);
    }
    v
}

/// The pieces of `s` between occurrences of `sep`, as std's `str::split`
/// gives them for a one-character pattern (always at least one piece).
pub open spec fn split_on(s: Seq<char>, sep: char) -> Seq<Seq<char>>
    decreases s.len(),
{
    if s.len() == 0 {
        seq![seq![]]
    } else {
        let p = split_on(s.drop_last(), sep);
        if s.last() == sep {
            p.push(seq![])
        } else {
            p.update(p.len() - 1, p.last().push(s.last()))
        }
    }
}

pub proof fn lemma_split_on_nonempty(s: Seq<char>, sep: char)
    ensures
        split_on(s, sep).len() >= 1,
    decreases s.len(),
{
    if s.len() > 0 {
        lemma_split_on_nonempty(s.drop_last(), sep);
    }
}

pub open spec fn texts_view(ss: Seq<String>) -> Seq<Seq<char>> {
    ss.map_values(|x: String| x@)
}

/// The pieces of `s` between occurrences of `sep`.
pub fn split_on_exec(s: &str, sep: char) -> (r: Vec<String>)
    ensures
        texts_view(r@) == split_on(s@, sep),
{
    let cs = chars_of(s);
    let mut pieces: Vec<String> = Vec::new();
    let mut cur = String::new();
    let mut i: usize = 0;
    while i < cs.len()
        invariant
            i <= cs@.len(),
            cs@ == s@,
            texts_view(pieces@).push(cur@) == split_on(cs@.take(i as int), sep),
        decreases cs@.len() - i,
    {
        let ghost before = texts_view(pieces@).push(cur@);
        let c = cs[i];
        assert(cs@.take(i + 1).drop_last() =~= cs@.take(i as int));
        assert(cs@.take(i + 1).last() == c);
        if c == sep {
            let done = cur;
            pieces.push(done);
            cur = String::new();
            assert(texts_view(pieces@).push(cur@) =~= before.push(seq![]));
        } else {
            push_char(&mut cur, c);
            assert(texts_view(pieces@).push(cur@) =~= before.update(before.len() - 1, before.last().push(c)));
        }
        i = i + 1;
    }
    assert(cs@.take(cs@.len() as int) =~= cs@);
    let ghost before = texts_view(pieces@).push(cur@);
    pieces.push(cur);
    assert(texts_view(pieces@) =~= before);
    pieces
}

/// `a` and `b` hold the same text.
pub fn str_eq(a: &str, b: &str) -> (r: bool)
    ensures
        r == (a@ == b@),
{
    let ca = chars_of(a);
    let cb = chars_of(b);
    crate::parse::chars_eq(ca.as_slice(), cb.as_slice())
}

/// `a` followed by `b`.
pub fn concat(a: &str, b: &str) -> (r: String)
    ensures
        r@ == a@ + b@,
{
    let mut r = String::new();
    r.append(a);
    r.append(b);
    assert(r@ =~= a@ + b@);
    r
}

/// The text as an owned `String`.
pub fn owned(a: &str) -> (r: String)
    ensures
        r@ == a@,
{
    a.to_owned()
}

/// The name that std gives to what `str::to_lowercase` returns: the Unicode
/// lower-case mapping of the text.
pub uninterp spec fn unicode_lowercase(s: Seq<char>) -> Seq<char>;

/// All characters are ASCII.
pub open spec fn is_ascii_text(s: Seq<char>) -> bool {
    forall|i: int| 0 <= i < s.len() ==> (s[i] as u32) < 128
}

/// std's `str::to_lowercase`: the Unicode lower-case form of `s`; on ASCII
/// text, that is the ASCII lower case ('A'..='Z' become 'a'..='z').
#[verifier::external_body]
pub fn to_lowercase(s: &str) -> (r: String)
    ensures
        r@ == unicode_lowercase(s@),
        is_ascii_text(s@) ==> r@ == crate::parse::ascii_lowercase(s@),
{
    s.to_lowercase()
}

/// The decimal digit character for `d` (0 to 9).
pub open spec fn digit_char(d: nat) -> char {
    if d == 0 { '0' } else if d == 1 { '1' } else if d == 2 { '2' } else if d == 3 { '3' }
    else if d == 4 { '4' } else if d == 5 { '5' } else if d == 6 { '6' } else if d == 7 { '7' }
    else if d == 8 { '8' } else { '9' }
}

/// The decimal digits of `m`, without leading zeros.
pub open spec fn nat_text(m: nat) -> Seq<char>
    decreases m,
{
    if m < 10 {
        seq![digit_char(m)]
    } else {
        nat_text(m / 10).push(digit_char(m % 10))
    }
}

/// How std's `Display` writes an integer: an optional minus sign, then the
/// decimal digits.
pub open spec fn int_text(n: int) -> Seq<char> {
    if n < 0 {
        seq!['-'] + nat_text((-n) as nat)
    } else {
        nat_text(n as nat)
    }
}

fn digit_to_char(d: u64) -> (c: char)
    requires
        d < 10,
    ensures
        c == digit_char(d as nat),
{
    match d {
        0 => '0',
        1 => '1',
        2 => '2',
        3 => '3',
        4 => '4',
        5 => '5',
        6 => '6',
        7 => '7',
        8 => '8',
        _ => '9',
    }
}

fn push_nat_digits(m: u64, out: &mut String)
    ensures
        final(out)@ == old(out)@ + nat_text(m as nat),
    decreases m,
{
    if m >= 10 {
        push_nat_digits(m / 10, out);
    }
    push_char(out, digit_to_char(m % 10));
    assert(final(out)@ =~= old(out)@ + nat_text(m as nat)) by {
        if m >= 10 {
            assert(nat_text(m as nat) == nat_text((m / 10) as nat).push(digit_char((m % 10) as nat)));
        }
    }
}

/// The decimal text of a `u64`.
pub fn u64_to_string(n: u64) -> (r: String)
    ensures
        r@ == nat_text(n as nat),
{
    let mut r = String::new();
    push_nat_digits(n, &mut r);
    assert(r@ =~= nat_text(n as nat));
    r
}

/// The decimal text of an `i64`, as std's `Display` writes it.
pub fn i64_to_string(n: i64) -> (r: String)
    ensures
        r@ == int_text(n as int),
{
    let mut r = String::new();
    if n < 0 {
        push_char(&mut r, '-');
        let m: u64 = (0 - (n as i128)) as u64;
        push_nat_digits(m, &mut r);
    } else {
        push_nat_digits(n as u64, &mut r);
    }
    assert(r@ =~= int_text(n as int));
    r
}

} // verus!
