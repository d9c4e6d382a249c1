//! The server's version, read from its executable: the UTF-16 text that
//! follows the wide-character marker `ArkVersion` and its terminating zero.
use vstd::prelude::*;
use crate::text::push_char;

verus! {

/// The marker as it is stored in the executable: "ArkVersion" in UTF-16LE
/// followed by a zero code unit.
pub open spec fn version_marker() -> Seq<u8> {
    seq![
        0x41u8, 0x00u8, 0x72u8, 0x00u8, 0x6Bu8, 0x00u8, 0x56u8, 0x00u8, 0x65u8, 0x00u8, 0x72u8,
        0x00u8, 0x73u8, 0x00u8, 0x69u8, 0x00u8, 0x6Fu8, 0x00u8, 0x6Eu8, 0x00u8, 0x00u8, 0x00u8,
    ]
}

/// The first position at or after `p` that holds the marker's first byte, or
/// the length when there is none.
pub open spec fn next_marker_start(b: Seq<u8>, p: int) -> int
    decreases b.len() - p,
{
    if p >= b.len() {
        b.len() as int
    } else if b[p] == 0x41u8 {
        p
    } else {
        next_marker_start(b, p + 1)
    }
}

/// With the marker's first byte at `q`, the first offset `j` from `j0` on
/// whose byte is missing or differs from the marker; 22 when all match.
pub open spec fn marker_mismatch(b: Seq<u8>, q: int, j: int) -> int
    decreases 22 - j,
{
    if j >= 22 {
        22
    } else if q + j >= b.len() || b[q + j] != version_marker()[j] {
        j
    } else {
        marker_mismatch(b, q, j + 1)
    }
}

pub proof fn lemma_next_marker_start(b: Seq<u8>, p: int)
    requires
        0 <= p <= b.len(),
    ensures
        p <= next_marker_start(b, p) <= b.len(),
        next_marker_start(b, p) < b.len() ==> b[next_marker_start(b, p)] == 0x41u8,
    decreases b.len() - p,
{
    if p < b.len() && b[p] != 0x41u8 {
        lemma_next_marker_start(b, p + 1);
    }
}

pub proof fn lemma_marker_mismatch(b: Seq<u8>, q: int, j: int)
    requires
        1 <= j <= 22,
    ensures
        j <= marker_mismatch(b, q, j) <= 22,
    decreases 22 - j,
{
    if j < 22 && !(q + j >= b.len() || b[q + j] != version_marker()[j]) {
        lemma_marker_mismatch(b, q, j + 1);
    }
}

/// Where the version text starts: the search reads forward to the marker's
/// first byte, then compares the following bytes; a byte that differs is
/// consumed and the search goes on after it. `None` when the bytes run out.
pub open spec fn version_start(b: Seq<u8>, p: int) -> Option<int>
    decreases b.len() - p,
{
    if p < 0 || p >= b.len() {
        None
    } else {
        let q = next_marker_start(b, p);
        if q >= b.len() {
            None
        } else {
            proof {
                lemma_next_marker_start(b, p);
                lemma_marker_mismatch(b, q, 1);
            }
            let j = marker_mismatch(b, q, 1);
            if j == 22 {
                Some(q + 22)
            } else {
                let next = if q + j + 1 < b.len() { q + j + 1 } else { b.len() as int };
                version_start(b, next)
            }
        }
    }
}

/// A UTF-16 code unit that is a character by itself (not a surrogate).
pub open spec fn is_scalar_unit(u: int) -> bool {
    0 <= u < 0xD800 || 0xE000 <= u <= 0xFFFF
}

/// The characters of the little-endian UTF-16 code units from `p`, up to a
/// zero unit, a surrogate, or the last whole unit.
pub open spec fn utf16_text(b: Seq<u8>, p: int) -> Seq<char>
    decreases b.len() - p,
{
    if p < 0 || p + 2 > b.len() {
        seq![]
    } else {
        let u = b[p] as int + 256 * b[p + 1] as int;
        if u == 0 || !is_scalar_unit(u) {
            seq![]
        } else {
            seq![u as char] + utf16_text(b, p + 2)
        }
    }
}

/// The version found in the bytes of the server executable; empty when the
/// marker is not found.
pub open spec fn spec_asa_version(b: Seq<u8>) -> Seq<char> {
    match version_start(b, 0) {
        Some(s) => utf16_text(b, s),
        None => seq![],
    }
}

/// std's `char::from_u32`: the character whose code is `u`, or `None` where
/// `u` is a surrogate code or above `0x10FFFF`.
#[verifier::external_body]
fn char_from_u32(u: u32) -> (r: Option<char>)
    ensures
        (0xD800 <= u <= 0xDFFF || u > 0x10FFFF) ==> r is None,
        !(0xD800 <= u <= 0xDFFF || u > 0x10FFFF) ==> r == Some(u as char),
{
    char::from_u32(u)
}

/// The server version written in the bytes of its executable.
pub fn asa_version_from_bytes(bytes: &[u8]) -> (r: String)
    ensures
        r@ == spec_asa_version(bytes@),
{
    let ghost b = bytes@;
    let marker: [u8; 22] = [
        0x41, 0x00, 0x72, 0x00, 0x6B, 0x00, 0x56, 0x00, 0x65, 0x00, 0x72, 0x00, 0x73, 0x00, 0x69,
        0x00, 0x6F, 0x00, 0x6E, 0x00, 0x00, 0x00,
    ];
    assert(marker@ =~= version_marker());
    let len = bytes.len();
    let mut p: usize = 0;
    let mut start: usize = 0;
    let mut found = false;
    while !found
        invariant
            b == bytes@,
            len == b.len(),
            marker@ == version_marker(),
            p <= len,
            !found ==> version_start(b, 0) == version_start(b, p as int),
            found ==> version_start(b, 0) == Some(start as int) && start <= len,
        decreases len - p, if found { 0int } else { 1int },
    {
        if p >= len {
            return String::new();
        }
        let mut q = p;
        while q < len && bytes[q] != 0x41
            invariant
                p <= q <= len,
                b == bytes@,
                len == b.len(),
                next_marker_start(b, p as int) == next_marker_start(b, q as int),
            decreases len - q,
        {
            q = q + 1;
        }
        if q >= len {
            return String::new();
        }
        let mut j: usize = 1;
        while j < 22 && j < len - q && bytes[q + j] == marker[j]
            invariant
                1 <= j <= 22,
                q < len,
                j <= len - q,
                b == bytes@,
                len == b.len(),
                marker@ == version_marker(),
                marker_mismatch(b, q as int, 1) == marker_mismatch(b, q as int, j as int),
            decreases 22 - j,
        {
            j = j + 1;
        }
        proof {
            lemma_next_marker_start(b, p as int);
        }
        if j == 22 {
            assert(q + 22 <= len);
            start = q + 22;
            found = true;
        } else {
            p = if j + 1 < len - q { q + j + 1 } else { len };
        }
    }
    let mut version = String::new();
    let mut i = start;
    assert(version@ + utf16_text(b, i as int) == utf16_text(b, start as int));
    while len - i >= 2
        invariant
            b == bytes@,
            len == b.len(),
            start <= i <= len,
            version_start(b, 0) == Some(start as int),
            version@ + utf16_text(b, i as int) == utf16_text(b, start as int),
        decreases len - i,
    {
        let u: u32 = bytes[i] as u32 + 256 * (bytes[i + 1] as u32);
        if u == 0 {
            return version;
        }
        match char_from_u32(u) {
            Some(c) => {
                let ghost before = version@;
                push_char(&mut version, c);
                assert(utf16_text(b, i as int) == seq![c] + utf16_text(b, i + 2));
                assert(version@ + utf16_text(b, i + 2) =~= before + utf16_text(b, i as int));
            },
            None => {
                return version;
            },
        }
        i = i + 2;
    }
    version
}

} // verus!
