//! SHA-256 digests and their hexadecimal form.

use sha2::Digest;
use vstd::prelude::*;

use crate::encoding;
use crate::text;

verus! {

/// The small hexadecimal digit for `d`, from 0 to 15.
pub open spec fn hex_digit_lower(d: int) -> char {
    if d < 10 {
        ('0' as int + d) as char
    } else {
        ('a' as int + d - 10) as char
    }
}

/// The four bits of `bytes` that the hexadecimal digit at `i` shows: the upper
/// half of a byte first.
pub open spec fn nibble(bytes: Seq<u8>, i: int) -> int {
    if i % 2 == 0 {
        bytes[i / 2] as int / 16
    } else {
        bytes[i / 2] as int % 16
    }
}

/// Bytes in small hexadecimal digits, two for each byte.
pub open spec fn hex_lower(bytes: Seq<u8>) -> Seq<char> {
    Seq::new(2 * bytes.len(), |i: int| hex_digit_lower(nibble(bytes, i)))
}

/// Bytes in capital hexadecimal digits, two for each byte.
pub open spec fn hex_upper(bytes: Seq<u8>) -> Seq<char> {
    Seq::new(2 * bytes.len(), |i: int| encoding::hex_digit_upper(nibble(bytes, i)))
}

/// The SHA-256 digest of some bytes.
pub uninterp spec fn sha256(bytes: Seq<u8>) -> Seq<u8>;

/// `sha2::Sha256::digest`: the result is a function of the bytes and is 32
/// bytes long. The digest itself is left to [`sha256`].
#[verifier::external_body]
pub(crate) fn sha256_digest(bytes: &[u8]) -> (r: Vec<u8>)
    ensures
        r@ == sha256(bytes@),
        r@.len() == 32,
{
    sha2::Sha256::digest(bytes).to_vec()
}

/// `hex::encode`: two small hexadecimal digits for each byte, the upper half
/// of the byte first.
#[verifier::external_body]
fn hex_encode(bytes: &[u8]) -> (r: String)
    ensures
        r@ == hex_lower(bytes@),
{
    hex::encode(bytes)
}

/// Capital letters turn small hexadecimal digits into capital ones.
proof fn lemma_hex_upper(bytes: Seq<u8>)
    ensures
        vstd::utf8::is_ascii_chars(hex_lower(bytes)),
        text::ascii_upper(hex_lower(bytes)) == hex_upper(bytes),
{
    let s = hex_lower(bytes);
    assert forall|i: int| 0 <= i < s.len() implies '\0' <= #[trigger] s[i] <= '\u{7f}'
        && text::ascii_upper_char(s[i]) == hex_upper(bytes)[i] by {
        assert(0 <= nibble(bytes, i) < 16);
    }
    assert(text::ascii_upper(s) =~= hex_upper(bytes));
}

/// A digest in capital hexadecimal digits.
pub fn digest_text(digest: &[u8]) -> (r: String)
    ensures
        r@ == hex_upper(digest@),
{
    let hex = hex_encode(digest);
    proof {
        lemma_hex_upper(digest@);
    }
    hex.as_str().to_uppercase()
}

/// Each byte shows as two capital hexadecimal digits: the digit of its sixteenth
/// part, then that of the remainder.
pub proof fn lemma_hex_upper_codes(bytes: Seq<u8>)
    ensures
        hex_upper(bytes).len() == 2 * bytes.len(),
        forall|i: int|
            0 <= i < bytes.len() ==> {
                let high = (#[trigger] bytes[i]) as int / 16;
                let low = bytes[i] as int % 16;
                &&& hex_upper(bytes)[2 * i] as int == high + (if high < 10 {
                    48int
                } else {
                    55
                })
                &&& hex_upper(bytes)[2 * i + 1] as int == low + (if low < 10 {
                    48int
                } else {
                    55
                })
            },
{
    assert forall|i: int| 0 <= i < bytes.len() implies {
        let high = (#[trigger] bytes[i]) as int / 16;
        let low = bytes[i] as int % 16;
        &&& hex_upper(bytes)[2 * i] as int == high + (if high < 10 {
            48int
        } else {
            55
        })
        &&& hex_upper(bytes)[2 * i + 1] as int == low + (if low < 10 {
            48int
        } else {
            55
        })
    } by {
        assert(nibble(bytes, 2 * i) == bytes[i] as int / 16);
        assert(nibble(bytes, 2 * i + 1) == bytes[i] as int % 16);
    }
}

/// What [`digest_text`] gives of some bytes reads as those bytes: each is sixteen
/// times the value of one digit and the value of the next.
pub proof fn lemma_digest_text(digest: &[u8], r: String)
    requires
        call_ensures(digest_text, (digest,), r),
    ensures
        r@.len() == 2 * digest@.len(),
        forall|i: int|
            0 <= i < digest@.len() ==> {
                let high = (#[trigger] digest@[i]) as int / 16;
                let low = digest@[i] as int % 16;
                &&& r@[2 * i] as int == high + (if high < 10 {
                    48int
                } else {
                    55
                })
                &&& r@[2 * i + 1] as int == low + (if low < 10 {
                    48int
                } else {
                    55
                })
            },
{
    lemma_hex_upper_codes(digest@);
}

} // verus!
