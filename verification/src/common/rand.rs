//! Secure random tokens and constant-time comparison.
//!
//! CSRF tokens and activation / reset tokens all come from here.
use vstd::prelude::*;
use crate::text::push_char;

verus! {

/// The lowercase hex digit for a nibble `n < 16`.
pub open spec fn hex_digit(n: u8) -> char {
    if n < 10 {
        (n + 48) as char
    } else {
        (n + 87) as char
    }
}

/// A character of `0-9a-f`.
pub open spec fn is_lower_hex(c: char) -> bool {
    ('0' <= c && c <= '9') || ('a' <= c && c <= 'f')
}

/// Lowercase hex text of `bytes`: two digits per byte, high nibble first.
pub open spec fn hex_of(bytes: Seq<u8>) -> Seq<char>
    decreases bytes.len(),
{
    if bytes.len() == 0 {
        Seq::<char>::empty()
    } else {
        hex_of(bytes.drop_last()) + seq![
            hex_digit(bytes.last() >> 4u8),
            hex_digit(bytes.last() & 15u8),
        ]
    }
}

/// Hex text is twice as long as its bytes and made only of `0-9a-f`.
pub proof fn lemma_hex_of_shape(bytes: Seq<u8>)
    ensures
        hex_of(bytes).len() == 2 * bytes.len(),
        forall|i: int| 0 <= i < hex_of(bytes).len() ==> is_lower_hex(#[trigger] hex_of(bytes)[i]),
    decreases bytes.len(),
{
    if bytes.len() > 0 {
        lemma_hex_of_shape(bytes.drop_last());
        let b = bytes.last();
        assert(b >> 4u8 < 16u8 && b & 15u8 < 16u8) by (bit_vector);
    }
}

/// The lowercase hex digit for nibble `n`.
fn hex_digit_exec(n: u8) -> (c: char)
    requires
        n < 16,
    ensures
        c == hex_digit(n),
{
    if n < 10 {
        ((n + 48) as u8) as char
    } else {
        ((n + 87) as u8) as char
    }
}

/// Bytes to lowercase hex (two characters per byte).
pub fn hex(bytes: &[u8]) -> (r: String)
    ensures
        r@ == hex_of(bytes@),
{
    let mut out = String::new();
    let mut i: usize = 0;
    while i < bytes.len()
        invariant
            i <= bytes.len(),
            out@ == hex_of(bytes@.subrange(0, i as int)),
        decreases bytes.len() - i,
    {
        let b = bytes[i];
        assert(b >> 4u8 < 16u8 && b & 15u8 < 16u8) by (bit_vector);
        push_char(&mut out, hex_digit_exec(b >> 4));
        push_char(&mut out, hex_digit_exec(b & 15));
        let ghost next = bytes@.subrange(0, i + 1);
        assert(next.drop_last() =~= bytes@.subrange(0, i as int));
        i += 1;
    }
    assert(bytes@.subrange(0, bytes@.len() as int) =~= bytes@);
    out
}

/// `n` bytes from the operating system's secure random source.
///
/// Calls `aws_lc_rs::rand::fill`, which fills the whole buffer with random
/// bytes; nothing is claimed about their values. When the random source
/// reports a failure (`Unspecified`) this panics; no input causes that.
#[verifier::external_body]
pub(crate) fn random_bytes(n: usize) -> (r: Vec<u8>)
    ensures
        r@.len() == n,
{
    let mut buf = vec![0u8; n];
    aws_lc_rs::rand::fill(&mut buf).expect("random source unavailable");
    buf
}

/// 32 secure random bytes as 64 lowercase hex characters.
pub fn random_hex() -> (r: String)
    ensures
        exists|b: Seq<u8>| b.len() == 32 && r@ == hex_of(b),
        r@.len() == 64,
        forall|i: int| 0 <= i < r@.len() ==> is_lower_hex(#[trigger] r@[i]),
{
    let buf = random_bytes(32);
    let r = hex(buf.as_slice());
    proof {
        lemma_hex_of_shape(buf@);
    }
    r
}

/// Byte-wise equality accumulated without early exit, so the time taken does
/// not depend on where two equal-length strings differ; different lengths
/// compare unequal at once.
pub fn ct_eq(a: &str, b: &str) -> (r: bool)
    ensures
        r == (a@ == b@),
{
    let x = a.as_bytes();
    let y = b.as_bytes();
    proof {
        vstd::utf8::encode_utf8_decode_utf8(a@);
        vstd::utf8::encode_utf8_decode_utf8(b@);
    }
    if x.len() != y.len() {
        assert(a@ != b@);
        return false;
    }
    let mut diff: u8 = 0;
    let mut i: usize = 0;
    while i < x.len()
        invariant
            x@.len() == y@.len(),
            i <= x@.len(),
            (diff == 0) == (forall|j: int| 0 <= j < i ==> x@[j] == y@[j]),
        decreases x.len() - i,
    {
        let xi = x[i];
        let yi = y[i];
        let d = diff;
        assert(((d | (xi ^ yi)) == 0u8) == (d == 0u8 && xi == yi)) by (bit_vector);
        diff = diff | (xi ^ yi);
        i += 1;
    }
    if diff == 0 {
        assert(x@ =~= y@);
    }
    diff == 0
}

/// A random (version 4) UUID in simple form.
///
/// Calls `uuid::Uuid::new_v4` and formats it with `simple().to_string()`:
/// 32 lowercase hex digits, two per byte, whose version digit (index 12) is
/// `4` and whose variant digit (index 16) is one of `8 9 a b`. The other
/// digits are random; nothing more is claimed of them. It panics only when
/// the system random source fails, which no input causes.
#[verifier::external_body]
pub(crate) fn new_uuid_simple() -> (r: String)
    ensures
        r@.len() == 32,
        forall|i: int| 0 <= i < r@.len() ==> is_lower_hex(#[trigger] r@[i]),
        r@[12] == '4',
        r@[16] == '8' || r@[16] == '9' || r@[16] == 'a' || r@[16] == 'b',
{
    uuid::Uuid::new_v4().simple().to_string()
}

} // verus!
