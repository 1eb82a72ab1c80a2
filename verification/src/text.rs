//! Text predicates used by the store: locale-independent, ASCII-safe
//! case-insensitive substring matching, and the blank-name test.
//!
//! Case folding is deliberately ASCII-only: the bytes `b'A'..=b'Z'` of the
//! UTF-8 encoding are mapped to their lowercase counterparts and every other
//! byte is left alone. Bytes of a multi-byte UTF-8 sequence are all at least
//! `0x80`, so this never corrupts non-ASCII text; it simply compares it
//! case-sensitively.

use vstd::prelude::*;
use vstd::string::StrSliceExecFns;
use vstd::utf8::encode_utf8;

verus! {

/// ASCII lowercase of one byte: letters `A`..=`Z` map to `a`..=`z`.
pub open spec fn lower_byte(b: u8) -> u8 {
    if 65 <= b <= 90 {
        (b + 32) as u8
    } else {
        b
    }
}

/// ASCII-safe lowercase of a whole byte sequence.
pub open spec fn lower_bytes(s: Seq<u8>) -> Seq<u8> {
    s.map_values(|b: u8| lower_byte(b))
}

/// `needle` occurs contiguously inside `hay`.
pub open spec fn is_substring(needle: Seq<u8>, hay: Seq<u8>) -> bool {
    exists|i: int|
        0 <= i <= hay.len() - needle.len() && #[trigger] hay.subrange(i, i + needle.len())
            == needle
}

/// Case-insensitive containment: `pattern` occurs inside `text` once the
/// UTF-8 bytes of both are lowercased ASCII-wise.
pub open spec fn contains_ci(pattern: Seq<char>, text: Seq<char>) -> bool {
    is_substring(lower_bytes(encode_utf8(pattern)), lower_bytes(encode_utf8(text)))
}

/// The characters with the Unicode White_Space property: the set that
/// `str::trim` strips. ASCII whitespace, next line, no-break space, the
/// ogham space mark, the typographic spaces, the line and paragraph
/// separators, the narrow no-break and medium mathematical spaces, and the
/// ideographic space.
pub open spec fn is_space_char(c: char) -> bool {
    ||| c == ' '
    ||| c == '\t'
    ||| c == '\n'
    ||| c == '\u{b}'
    ||| c == '\u{c}'
    ||| c == '\r'
    ||| c == '\u{85}'
    ||| c == '\u{a0}'
    ||| c == '\u{1680}'
    ||| (0x2000 <= c as u32 && c as u32 <= 0x200a)
    ||| c == '\u{2028}'
    ||| c == '\u{2029}'
    ||| c == '\u{202f}'
    ||| c == '\u{205f}'
    ||| c == '\u{3000}'
}

/// A name is blank when every character is white space; in particular the
/// empty name is blank.
pub open spec fn is_blank(s: Seq<char>) -> bool {
    forall|i: int| 0 <= i < s.len() ==> is_space_char(s[i])
}

/// The lowering of a byte sequence keeps its length.
pub proof fn lemma_lower_len(s: Seq<u8>)
    ensures
        lower_bytes(s).len() == s.len(),
{
}

/// Lowercases one byte, ASCII-wise.
fn lower_byte_exec(b: u8) -> (r: u8)
    ensures
        r == lower_byte(b),
{
    if 65 <= b && b <= 90 {
        b + 32
    } else {
        b
    }
}

/// The lowered bytes of `hay` starting at `at` equal the lowered `needle`.
fn matches_at(needle: &[u8], hay: &[u8], at: usize) -> (r: bool)
    requires
        at + needle@.len() <= hay@.len(),
    ensures
        r == (lower_bytes(hay@).subrange(at as int, at + needle@.len()) == lower_bytes(needle@)),
{
    let n = needle.len();
    let h = hay.len();
    let mut j: usize = 0;
    while j < n
        invariant
            n == needle@.len(),
            h == hay@.len(),
            at + n <= h,
            j <= n,
            forall|k: int| 0 <= k < j ==> lower_byte(hay@[at + k]) == lower_byte(needle@[k]),
        decreases n - j,
    {
        if lower_byte_exec(hay[at + j]) != lower_byte_exec(needle[j]) {
            proof {
                lemma_lower_len(hay@);
                lemma_lower_len(needle@);
                assert(lower_bytes(hay@).subrange(at as int, at + needle@.len())[j as int]
                    == lower_byte(hay@[at + j]));
                assert(lower_bytes(needle@)[j as int] == lower_byte(needle@[j as int]));
            }
            return false;
        }
        j = j + 1;
    }
    proof {
        lemma_lower_len(hay@);
        lemma_lower_len(needle@);
        assert(lower_bytes(hay@).subrange(at as int, at + needle@.len()) =~= lower_bytes(
            needle@,
        ));
    }
    true
}

/// Decides case-insensitive containment on UTF-8 byte slices.
pub fn contains_ci_bytes(needle: &[u8], hay: &[u8]) -> (r: bool)
    ensures
        r == is_substring(lower_bytes(needle@), lower_bytes(hay@)),
{
    let n = needle.len();
    let h = hay.len();
    proof {
        lemma_lower_len(needle@);
        lemma_lower_len(hay@);
    }
    if n > h {
        return false;
    }
    let mut i: usize = 0;
    loop
        invariant
            n == needle@.len(),
            h == hay@.len(),
            n <= h,
            i <= h - n,
            lower_bytes(needle@).len() == n,
            lower_bytes(hay@).len() == h,
            forall|k: int|
                0 <= k < i ==> #[trigger] lower_bytes(hay@).subrange(k, k + needle@.len())
                    != lower_bytes(needle@),
        decreases h - n - i,
    {
        if matches_at(needle, hay, i) {
            proof {
                assert(lower_bytes(hay@).subrange(i as int, i + lower_bytes(needle@).len())
                    == lower_bytes(needle@));
            }
            return true;
        }
        if i == h - n {
            proof {
                assert forall|k: int|
                    0 <= k <= lower_bytes(hay@).len() - lower_bytes(needle@).len() implies #[trigger] lower_bytes(
                    hay@,
                ).subrange(k, k + lower_bytes(needle@).len()) != lower_bytes(needle@) by {
                    assert(lower_bytes(hay@).subrange(k, k + needle@.len()) != lower_bytes(
                        needle@,
                    ));
                }
            }
            return false;
        }
        i = i + 1;
    }
}

/// Decides case-insensitive containment of `pattern` inside `text`.
pub fn contains_ci_str(pattern: &str, text: &str) -> (r: bool)
    ensures
        r == contains_ci(pattern@, text@),
{
    contains_ci_bytes(pattern.as_bytes(), text.as_bytes())
}

/// Decides whether one character has the Unicode White_Space property.
fn space_char(c: char) -> (r: bool)
    ensures
        r == is_space_char(c),
{
    if c == ' ' || c == '\t' || c == '\n' || c == '\u{b}' || c == '\u{c}' || c == '\r' {
        return true;
    }
    if c == '\u{85}' || c == '\u{a0}' || c == '\u{1680}' {
        return true;
    }
    let code: u32 = c as u32;
    if 0x2000 <= code && code <= 0x200a {
        return true;
    }
    c == '\u{2028}' || c == '\u{2029}' || c == '\u{202f}' || c == '\u{205f}' || c == '\u{3000}'
}

/// Decides whether a string is blank: empty or all white space.
pub fn is_blank_str(s: &str) -> (r: bool)
    ensures
        r == is_blank(s@),
{
    let n = s.unicode_len();
    let mut i: usize = 0;
    while i < n
        invariant
            n == s@.len(),
            i <= n,
            forall|k: int| 0 <= k < i ==> is_space_char(s@[k]),
        decreases n - i,
    {
        let c = s.get_char(i);
        if !space_char(c) {
            return false;
        }
        i = i + 1;
    }
    true
}

/// Law: the empty pattern is contained, case-insensitively, in every text.
pub proof fn lemma_empty_pattern_matches(text: Seq<char>)
    ensures
        contains_ci(Seq::<char>::empty(), text),
{
    let needle = lower_bytes(encode_utf8(Seq::<char>::empty()));
    let hay = lower_bytes(encode_utf8(text));
    assert(encode_utf8(Seq::<char>::empty()) =~= Seq::<u8>::empty());
    assert(needle =~= Seq::<u8>::empty());
    assert(hay.subrange(0, 0) =~= needle);
    assert(0 <= 0 <= hay.len() - needle.len() && hay.subrange(0, 0 + needle.len() as int)
        == needle);
}

} // verus!
