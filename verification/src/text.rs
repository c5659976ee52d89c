//! Byte-level text utilities: UTF-8 well-formedness (MQTT strings must be
//! valid UTF-8) and byte-vector comparison.
use vstd::prelude::*;

verus! {

/// A UTF-8 continuation byte, of the form 10xxxxxx.
pub open spec fn is_continuation(b: u8) -> bool {
    0x80 <= b <= 0xBF
}

/// Well-formed UTF-8 per RFC 3629: the byte-range table for leading and
/// continuation bytes, which excludes overlong encodings, surrogate code
/// points, and code points above U+10FFFF.
pub open spec fn is_utf8(s: Seq<u8>) -> bool
    decreases s.len(),
{
    if s.len() == 0 {
        true
    } else {
        let b0 = s[0];
        if b0 < 0x80 {
            is_utf8(s.skip(1))
        } else if 0xC2 <= b0 <= 0xDF {
            s.len() >= 2 && is_continuation(s[1]) && is_utf8(s.skip(2))
        } else if b0 == 0xE0 {
            s.len() >= 3 && 0xA0 <= s[1] <= 0xBF && is_continuation(s[2]) && is_utf8(s.skip(3))
        } else if b0 == 0xED {
            s.len() >= 3 && 0x80 <= s[1] <= 0x9F && is_continuation(s[2]) && is_utf8(s.skip(3))
        } else if 0xE1 <= b0 <= 0xEF {
            s.len() >= 3 && is_continuation(s[1]) && is_continuation(s[2]) && is_utf8(s.skip(3))
        } else if b0 == 0xF0 {
            s.len() >= 4 && 0x90 <= s[1] <= 0xBF && is_continuation(s[2]) && is_continuation(s[3])
                && is_utf8(s.skip(4))
        } else if 0xF1 <= b0 <= 0xF3 {
            s.len() >= 4 && is_continuation(s[1]) && is_continuation(s[2]) && is_continuation(s[3])
                && is_utf8(s.skip(4))
        } else if b0 == 0xF4 {
            s.len() >= 4 && 0x80 <= s[1] <= 0x8F && is_continuation(s[2]) && is_continuation(s[3])
                && is_utf8(s.skip(4))
        } else {
            false
        }
    }
}

/// Checks the bytes of `buf` in `[start, end)` for UTF-8 well-formedness.
pub fn is_valid_utf8_range(buf: &Vec<u8>, start: usize, end: usize) -> (r: bool)
    requires
        start <= end <= buf@.len(),
    ensures
        r == is_utf8(buf@.subrange(start as int, end as int)),
    decreases end - start,
{
    let ghost s = buf@.subrange(start as int, end as int);
    if start == end {
        return true;
    }
    let b0 = buf[start];
    assert(s[0] == b0);
    if b0 < 0x80 {
        proof {
            assert(s.skip(1) =~= buf@.subrange(start + 1, end as int));
        }
        is_valid_utf8_range(buf, start + 1, end)
    } else if 0xC2 <= b0 && b0 <= 0xDF {
        if end - start >= 2 {
            assert(s[1] == buf@[start + 1]);
            let b1 = buf[start + 1];
            if 0x80 <= b1 && b1 <= 0xBF {
                proof {
                    assert(s.skip(2) =~= buf@.subrange(start + 2, end as int));
                }
                is_valid_utf8_range(buf, start + 2, end)
            } else {
                false
            }
        } else {
            false
        }
    } else if 0xE0 <= b0 && b0 <= 0xEF {
        if end - start >= 3 {
            assert(s[1] == buf@[start + 1]);
            assert(s[2] == buf@[start + 2]);
            let b1 = buf[start + 1];
            let b2 = buf[start + 2];
            let b1_ok: bool = if b0 == 0xE0 {
                0xA0 <= b1 && b1 <= 0xBF
            } else if b0 == 0xED {
                0x80 <= b1 && b1 <= 0x9F
            } else {
                0x80 <= b1 && b1 <= 0xBF
            };
            if b1_ok && 0x80 <= b2 && b2 <= 0xBF {
                proof {
                    assert(s.skip(3) =~= buf@.subrange(start + 3, end as int));
                }
                is_valid_utf8_range(buf, start + 3, end)
            } else {
                false
            }
        } else {
            false
        }
    } else if 0xF0 <= b0 && b0 <= 0xF4 {
        if end - start >= 4 {
            assert(s[1] == buf@[start + 1]);
            assert(s[2] == buf@[start + 2]);
            assert(s[3] == buf@[start + 3]);
            let b1 = buf[start + 1];
            let b2 = buf[start + 2];
            let b3 = buf[start + 3];
            let b1_ok: bool = if b0 == 0xF0 {
                0x90 <= b1 && b1 <= 0xBF
            } else if b0 == 0xF4 {
                0x80 <= b1 && b1 <= 0x8F
            } else {
                0x80 <= b1 && b1 <= 0xBF
            };
            if b1_ok && 0x80 <= b2 && b2 <= 0xBF && 0x80 <= b3 && b3 <= 0xBF {
                proof {
                    assert(s.skip(4) =~= buf@.subrange(start + 4, end as int));
                }
                is_valid_utf8_range(buf, start + 4, end)
            } else {
                false
            }
        } else {
            false
        }
    } else {
        false
    }
}

/// Byte-for-byte equality of two byte vectors.
pub fn bytes_eq(a: &Vec<u8>, b: &Vec<u8>) -> (r: bool)
    ensures
        r == (a@ == b@),
{
    if a.len() != b.len() {
        return false;
    }
    let mut i: usize = 0;
    while i < a.len()
        invariant
            i <= a@.len(),
            a@.len() == b@.len(),
            forall|j: int| 0 <= j < i ==> a@[j] == b@[j],
        decreases a@.len() - i,
    {
        if a[i] != b[i] {
            return false;
        }
        i = i + 1;
    }
    proof {
        assert(a@ =~= b@);
    }
    true
}

/// Pure ASCII bytes are well-formed UTF-8.
pub proof fn lemma_ascii_utf8(s: Seq<u8>)
    requires
        forall|i: int| 0 <= i < s.len() ==> s[i] < 0x80,
    ensures
        is_utf8(s),
    decreases s.len(),
{
    if s.len() > 0 {
        assert(forall|i: int| 0 <= i < s.skip(1).len() ==> s.skip(1)[i] == s[i + 1]);
        lemma_ascii_utf8(s.skip(1));
    }
}

/// The decimal digits of `n` as ASCII bytes.
pub fn u16_to_ascii(n: u16) -> (r: Vec<u8>)
    ensures
        1 <= r@.len() <= 6,
        forall|i: int| 0 <= i < r@.len() ==> 0x30 <= #[trigger] r@[i] <= 0x39,
        is_utf8(r@),
{
    let mut digits: Vec<u8> = Vec::new();
    let mut x: u16 = n;
    digits.push(0x30 + (x % 10) as u8);
    x = x / 10;
    while x > 0 && digits.len() < 6
        invariant
            1 <= digits@.len() <= 6,
            forall|i: int| 0 <= i < digits@.len() ==> 0x30 <= #[trigger] digits@[i] <= 0x39,
        decreases x,
    {
        digits.push(0x30 + (x % 10) as u8);
        x = x / 10;
    }
    let mut r: Vec<u8> = Vec::new();
    let mut k: usize = digits.len();
    while k > 0
        invariant
            k <= digits@.len(),
            forall|i: int| 0 <= i < digits@.len() ==> 0x30 <= #[trigger] digits@[i] <= 0x39,
            r@.len() == digits@.len() - k,
            forall|i: int| 0 <= i < r@.len() ==> 0x30 <= #[trigger] r@[i] <= 0x39,
        decreases k,
    {
        k = k - 1;
        r.push(digits[k]);
    }
    proof {
        lemma_ascii_utf8(r@);
    }
    r
}

} // verus!
