//! Byte-level text checks used to interpret frame payloads: whether a
//! payload is well-formed UTF-8, and whether it contains a keyword.

use vstd::prelude::*;

verus! {

/// Whether a byte is a UTF-8 continuation byte (`10xxxxxx`).
pub open spec fn is_continuation(b: u8) -> bool {
    0x80 <= b && b < 0xC0
}

/// Length of the UTF-8 sequence introduced by lead byte `b`, or 0 if
/// `b` cannot begin a sequence (continuation bytes, the overlong leads
/// 0xC0/0xC1, and leads beyond 0xF4).
pub open spec fn encoded_len(b: u8) -> int {
    if b < 0x80 {
        1
    } else if b < 0xC2 {
        0
    } else if b < 0xE0 {
        2
    } else if b < 0xF0 {
        3
    } else if b < 0xF5 {
        4
    } else {
        0
    }
}

/// Whether a well-introduced sequence starting at `i` is a valid
/// scalar-value encoding: all continuation bytes in place, no overlong
/// form, no surrogate, nothing above the last scalar value.  Assumes
/// `encoded_len(s[i]) > 0` and `i + encoded_len(s[i]) <= s.len()`.
pub open spec fn valid_scalar_at(s: Seq<u8>, i: int) -> bool {
    let n = encoded_len(s[i]);
    if n == 1 {
        true
    } else if n == 2 {
        is_continuation(s[i + 1])
    } else if n == 3 {
        is_continuation(s[i + 1]) && is_continuation(s[i + 2]) && (s[i] != 0xE0 || s[i + 1] >= 0xA0)
            && (s[i] != 0xED || s[i + 1] < 0xA0)
    } else {
        is_continuation(s[i + 1]) && is_continuation(s[i + 2]) && is_continuation(s[i + 3]) && (s[i]
            != 0xF0 || s[i + 1] >= 0x90) && (s[i] != 0xF4 || s[i + 1] < 0x90)
    }
}

/// Whether the bytes from position `i` on are a sequence of valid
/// UTF-8 scalar-value encodings.
pub open spec fn valid_utf8_from(s: Seq<u8>, i: int) -> bool
    decreases s.len() - i,
    when 0 <= i <= s.len()
{
    if i == s.len() {
        true
    } else {
        let n = encoded_len(s[i]);
        n > 0 && i + n <= s.len() && valid_scalar_at(s, i) && valid_utf8_from(s, i + n)
    }
}

/// Whether the whole byte sequence is well-formed UTF-8.
pub open spec fn is_valid_utf8(s: Seq<u8>) -> bool {
    valid_utf8_from(s, 0)
}

/// Decide whether `bytes` is well-formed UTF-8.
pub fn check_utf8(bytes: &[u8]) -> (r: bool)
    ensures
        r == is_valid_utf8(bytes@),
{
    let n = bytes.len();
    let mut i: usize = 0;
    while i < n
        invariant
            n == bytes@.len(),
            i <= n,
            is_valid_utf8(bytes@) == valid_utf8_from(bytes@, i as int),
        decreases n - i,
    {
        let b = bytes[i];
        if b < 0x80 {
            i = i + 1;
        } else if b < 0xC2 {
            return false;
        } else if b < 0xE0 {
            if n - i < 2 || !(0x80 <= bytes[i + 1] && bytes[i + 1] < 0xC0) {
                return false;
            }
            i = i + 2;
        } else if b < 0xF0 {
            if n - i < 3 || !(0x80 <= bytes[i + 1] && bytes[i + 1] < 0xC0) || !(0x80 <= bytes[i + 2]
                && bytes[i + 2] < 0xC0) {
                return false;
            }
            if b == 0xE0 && bytes[i + 1] < 0xA0 {
                return false;
            }
            if b == 0xED && bytes[i + 1] >= 0xA0 {
                return false;
            }
            i = i + 3;
        } else if b < 0xF5 {
            if n - i < 4 || !(0x80 <= bytes[i + 1] && bytes[i + 1] < 0xC0) || !(0x80 <= bytes[i + 2]
                && bytes[i + 2] < 0xC0) || !(0x80 <= bytes[i + 3] && bytes[i + 3] < 0xC0) {
                return false;
            }
            if b == 0xF0 && bytes[i + 1] < 0x90 {
                return false;
            }
            if b == 0xF4 && bytes[i + 1] >= 0x90 {
                return false;
            }
            i = i + 4;
        } else {
            return false;
        }
    }
    true
}

/// Whether `needle` occurs as a contiguous run inside `hay`.
pub open spec fn contains_seq(hay: Seq<u8>, needle: Seq<u8>) -> bool {
    exists|i: int|
        0 <= i && i + needle.len() <= hay.len() && #[trigger] hay.subrange(i, i + needle.len() as int)
            == needle
}

/// Decide whether `needle` matches the bytes of `hay` starting at `i`.
fn matches_at(hay: &[u8], needle: &[u8], i: usize) -> (r: bool)
    requires
        i + needle@.len() <= hay@.len(),
    ensures
        r == (hay@.subrange(i as int, i + needle@.len() as int) == needle@),
{
    let m = needle.len();
    let n = hay.len();
    let mut j: usize = 0;
    while j < m
        invariant
            m == needle@.len(),
            n == hay@.len(),
            i + m <= n,
            j <= m,
            forall|k: int| 0 <= k < j ==> hay@[i + k] == needle@[k],
        decreases m - j,
    {
        if hay[i + j] != needle[j] {
            proof {
                assert(hay@.subrange(i as int, i + needle@.len() as int)[j as int] != needle@[j as int]);
            }
            return false;
        }
        j = j + 1;
    }
    proof {
        assert(hay@.subrange(i as int, i + needle@.len() as int) =~= needle@);
    }
    true
}

/// Decide whether `needle` occurs as a contiguous run inside `hay`.
pub fn contains_bytes(hay: &[u8], needle: &[u8]) -> (r: bool)
    ensures
        r == contains_seq(hay@, needle@),
{
    let m = needle.len();
    let n = hay.len();
    if m > n {
        assert(!contains_seq(hay@, needle@));
        return false;
    }
    if m == 0 {
        proof {
            assert(hay@.subrange(0, 0 + needle@.len() as int) =~= needle@);
        }
        return true;
    }
    let mut i: usize = 0;
    while i <= n - m
        invariant
            m == needle@.len(),
            n == hay@.len(),
            1 <= m <= n,
            i <= n - m + 1,
            forall|k: int|
                0 <= k < i ==> #[trigger] hay@.subrange(k, k + needle@.len() as int) != needle@,
        decreases n - i,
    {
        if matches_at(hay, needle, i) {
            return true;
        }
        i = i + 1;
    }
    assert forall|k: int| 0 <= k && k + needle@.len() <= hay@.len() implies #[trigger] hay@.subrange(
        k,
        k + needle@.len() as int,
    ) != needle@ by {
        assert(k < i);
    }
    false
}

} // verus!
