//! Deciding whether a byte value is text or an opaque blob.
//!
//! The UTF-8 validity check is implemented and verified here, against vstd's
//! specification of UTF-8; the only reliance on the standard library is for
//! materializing the decoded characters of a value already known valid.

use vstd::prelude::*;

verus! {

use vstd::utf8::{
    valid_utf8,
    decode_utf8,
    valid_first_scalar,
    valid_leading_and_continuation_bytes_first_codepoint,
    decode_first_codepoint,
    length_of_first_codepoint,
    length_of_first_scalar,
    pop_first_scalar,
    not_overlong_encoding,
    not_surrogate,
    is_continuation_byte,
    codepoint_width_1,
    codepoint_width_2,
    codepoint_width_3,
    codepoint_width_4,
};

/// How a byte value will be rendered: as decoded text, or byte by byte.
#[derive(Clone, Copy, PartialEq, Eq, Structural, Debug)]
pub enum Classification {
    /// The value decodes as UTF-8.
    Text,
    /// The value is not valid UTF-8 and is shown byte by byte.
    Blob,
}

proof fn lemma_codepoint_1(b0: u8)
    by (bit_vector)
    requires
        b0 < 0x80,
    ensures
        ((b0 & 0x7f) as u32) < 0xd800,
{
}

proof fn lemma_codepoint_2(b0: u8, b1: u8)
    by (bit_vector)
    requires
        0xc0 <= b0 <= 0xdf,
        0x80 <= b1 <= 0xbf,
    ensures
        ((((b0 & 0x1f) as u32) << 6) | ((b1 & 0x3f) as u32)) < 0x800,
        (((((b0 & 0x1f) as u32) << 6) | ((b1 & 0x3f) as u32)) >= 0x80) == (b0 >= 0xc2),
{
}

proof fn lemma_codepoint_3(b0: u8, b1: u8, b2: u8)
    by (bit_vector)
    requires
        0xe0 <= b0 <= 0xef,
        0x80 <= b1 <= 0xbf,
        0x80 <= b2 <= 0xbf,
    ensures
        (((((b0 & 0x0f) as u32) << 12) | (((b1 & 0x3f) as u32) << 6) | ((b2 & 0x3f) as u32))
            >= 0x800) == !(b0 == 0xe0 && b1 < 0xa0),
        (0xd800 <= ((((b0 & 0x0f) as u32) << 12) | (((b1 & 0x3f) as u32) << 6) | ((b2
            & 0x3f) as u32)) && ((((b0 & 0x0f) as u32) << 12) | (((b1 & 0x3f) as u32) << 6) | ((b2
            & 0x3f) as u32)) <= 0xdfff) == (b0 == 0xed && b1 >= 0xa0),
{
}

proof fn lemma_codepoint_4(b0: u8, b1: u8, b2: u8, b3: u8)
    by (bit_vector)
    requires
        0xf0 <= b0 <= 0xf7,
        0x80 <= b1 <= 0xbf,
        0x80 <= b2 <= 0xbf,
        0x80 <= b3 <= 0xbf,
    ensures
        (((((b0 & 0x07) as u32) << 18) | (((b1 & 0x3f) as u32) << 12) | (((b2
            & 0x3f) as u32) << 6) | ((b3 & 0x3f) as u32)) >= 0x10000) == !(b0 == 0xf0 && b1
            < 0x90),
        (((((b0 & 0x07) as u32) << 18) | (((b1 & 0x3f) as u32) << 12) | (((b2
            & 0x3f) as u32) << 6) | ((b3 & 0x3f) as u32)) <= 0x10ffff) == (b0 < 0xf4 || (b0 == 0xf4
            && b1 < 0x90)),
{
}

/// Decide whether `v` is a valid UTF-8 encoding, by vstd's specification of
/// UTF-8: well-formed leading and continuation bytes, no overlong encodings,
/// no surrogates, nothing beyond the last Unicode scalar.
pub fn is_valid_utf8(v: &[u8]) -> (r: bool)
    ensures
        r == valid_utf8(v@),
{
    let len = v.len();
    let mut i: usize = 0;
    proof {
        assert(v@.skip(0) =~= v@);
    }
    while i < len
        invariant
            i <= len,
            len == v@.len(),
            valid_utf8(v@) == valid_utf8(v@.skip(i as int)),
        decreases len - i,
    {
        let ghost s = v@.skip(i as int);
        let b0 = v[i];
        proof {
            assert(s.len() == len - i);
            assert(s[0] == b0);
        }
        let w: usize;
        if b0 < 0x80 {
            proof {
                lemma_codepoint_1(b0);
                assert(decode_first_codepoint(s) == codepoint_width_1(b0));
                assert(not_surrogate(decode_first_codepoint(s)));
                assert(valid_first_scalar(s));
                assert(length_of_first_scalar(s) == 1);
            }
            w = 1;
        } else if b0 < 0xc2 {
            // A stray continuation byte, or a leading byte whose two-byte
            // encoding could only be overlong.
            proof {
                if 0xc0 <= b0 && s.len() >= 2 && is_continuation_byte(s[1]) {
                    lemma_codepoint_2(b0, s[1]);
                    assert(decode_first_codepoint(s) == codepoint_width_2(b0, s[1]));
                    assert(length_of_first_codepoint(s) == 2);
                    assert(!not_overlong_encoding(
                        decode_first_codepoint(s),
                        length_of_first_codepoint(s),
                    ));
                }
                assert(!valid_first_scalar(s));
            }
            return false;
        } else if b0 < 0xe0 {
            if i + 1 >= len || !(0x80 <= v[i + 1] && v[i + 1] <= 0xbf) {
                proof {
                    assert(!valid_leading_and_continuation_bytes_first_codepoint(s));
                }
                return false;
            }
            let b1 = v[i + 1];
            proof {
                assert(s[1] == b1);
                lemma_codepoint_2(b0, b1);
                assert(decode_first_codepoint(s) == codepoint_width_2(b0, b1));
                assert(not_surrogate(decode_first_codepoint(s)));
                assert(valid_first_scalar(s));
                assert(length_of_first_scalar(s) == 2);
            }
            w = 2;
        } else if b0 < 0xf0 {
            if len - i < 3 || !(0x80 <= v[i + 1] && v[i + 1] <= 0xbf) || !(0x80 <= v[i + 2] && v[i
                + 2] <= 0xbf) {
                proof {
                    assert(!valid_leading_and_continuation_bytes_first_codepoint(s));
                }
                return false;
            }
            let b1 = v[i + 1];
            let b2 = v[i + 2];
            proof {
                assert(s[1] == b1);
                assert(s[2] == b2);
                lemma_codepoint_3(b0, b1, b2);
                assert(decode_first_codepoint(s) == codepoint_width_3(b0, b1, b2));
                assert(length_of_first_codepoint(s) == 3);
            }
            if b0 == 0xe0 && b1 < 0xa0 {
                // Overlong three-byte encoding.
                proof {
                    assert(!not_overlong_encoding(
                        decode_first_codepoint(s),
                        length_of_first_codepoint(s),
                    ));
                }
                return false;
            }
            if b0 == 0xed && b1 >= 0xa0 {
                // A codepoint in the surrogate range.
                proof {
                    assert(!not_surrogate(decode_first_codepoint(s)));
                }
                return false;
            }
            proof {
                assert(valid_first_scalar(s));
                assert(length_of_first_scalar(s) == 3);
            }
            w = 3;
        } else if b0 < 0xf8 {
            if len - i < 4 || !(0x80 <= v[i + 1] && v[i + 1] <= 0xbf) || !(0x80 <= v[i + 2] && v[i
                + 2] <= 0xbf) || !(0x80 <= v[i + 3] && v[i + 3] <= 0xbf) {
                proof {
                    assert(!valid_leading_and_continuation_bytes_first_codepoint(s));
                }
                return false;
            }
            let b1 = v[i + 1];
            let b2 = v[i + 2];
            let b3 = v[i + 3];
            proof {
                assert(s[1] == b1);
                assert(s[2] == b2);
                assert(s[3] == b3);
                lemma_codepoint_4(b0, b1, b2, b3);
                assert(decode_first_codepoint(s) == codepoint_width_4(b0, b1, b2, b3));
                assert(length_of_first_codepoint(s) == 4);
            }
            if b0 == 0xf0 && b1 < 0x90 {
                // Overlong four-byte encoding.
                proof {
                    assert(!not_overlong_encoding(
                        decode_first_codepoint(s),
                        length_of_first_codepoint(s),
                    ));
                }
                return false;
            }
            if !(b0 < 0xf4 || (b0 == 0xf4 && b1 < 0x90)) {
                // Beyond the last Unicode scalar.
                proof {
                    assert(!not_overlong_encoding(
                        decode_first_codepoint(s),
                        length_of_first_codepoint(s),
                    ));
                }
                return false;
            }
            proof {
                assert(not_surrogate(decode_first_codepoint(s)));
                assert(valid_first_scalar(s));
                assert(length_of_first_scalar(s) == 4);
            }
            w = 4;
        } else {
            // 0xf8 and above lead no UTF-8 encoding.
            proof {
                assert(!valid_leading_and_continuation_bytes_first_codepoint(s));
            }
            return false;
        }
        proof {
            assert(valid_first_scalar(s));
            assert(pop_first_scalar(s) =~= v@.skip(i + w));
            assert(valid_utf8(s) == valid_utf8(v@.skip(i + w)));
        }
        i += w;
    }
    proof {
        assert(v@.skip(len as int) =~= Seq::<u8>::empty());
    }
    true
}

/// Classify a byte value: `Text` exactly when it is valid UTF-8. Total over
/// all inputs; the empty sequence decodes trivially and is `Text`.
pub fn classify(v: &[u8]) -> (c: Classification)
    ensures
        c == Classification::Text <==> valid_utf8(v@),
{
    if is_valid_utf8(v) {
        Classification::Text
    } else {
        Classification::Blob
    }
}

/// Relies on `std::str::from_utf8`: on input already verified to be valid
/// UTF-8 it returns `Ok`, and the returned string holds the decoded
/// characters of the input bytes.
#[verifier::external_body]
pub(crate) fn decode_valid_utf8(v: &[u8]) -> (r: &str)
    requires
        valid_utf8(v@),
    ensures
        r@ == decode_utf8(v@),
{
    std::str::from_utf8(v).unwrap()
}

} // verus!
