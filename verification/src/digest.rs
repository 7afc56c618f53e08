//! SHA-256 digests, written in hexadecimal.
use sha2::{Digest, Sha256};
use vstd::prelude::*;

verus! {

/// The SHA-256 digest of `data`.
pub uninterp spec fn sha256_digest(data: Seq<u8>) -> Seq<u8>;

/// The hexadecimal digit of value `n`, in lower case.
pub open spec fn hex_digit(n: int) -> char {
    if n < 10 {
        (48 + n) as char
    } else {
        (87 + n) as char
    }
}

/// `data` in hexadecimal: two digits for each byte, the upper half first.
pub open spec fn hex_text(data: Seq<u8>) -> Seq<char> {
    Seq::new(
        2 * data.len(),
        |i: int|
            if i % 2 == 0 {
                hex_digit(data[i / 2] as int / 16)
            } else {
                hex_digit(data[i / 2] as int % 16)
            },
    )
}

/// The digest of `data` as text.
pub open spec fn digest_text(data: Seq<u8>) -> Seq<char> {
    hex_text(sha256_digest(data))
}

/// A digit of a hexadecimal number in lower case.
pub open spec fn is_hex_digit(c: char) -> bool {
    '0' <= c <= '9' || 'a' <= c <= 'f'
}

proof fn lemma_hex_digit(n: int, m: int)
    requires
        0 <= n < 16,
        0 <= m < 16,
        hex_digit(n) == hex_digit(m),
    ensures
        n == m,
{
    assert(hex_digit(n) as int == if n < 10 {
        48 + n
    } else {
        87 + n
    });
    assert(hex_digit(m) as int == if m < 10 {
        48 + m
    } else {
        87 + m
    });
}

/// Different data are written differently.
pub proof fn hex_text_tells_data_apart(a: Seq<u8>, b: Seq<u8>)
    requires
        hex_text(a) == hex_text(b),
    ensures
        a == b,
{
    assert(hex_text(a).len() == 2 * a.len());
    assert(hex_text(b).len() == 2 * b.len());
    assert forall|i: int| 0 <= i < a.len() implies a[i] == b[i] by {
        assert(hex_text(a)[2 * i] == hex_text(b)[2 * i]);
        assert(hex_text(a)[2 * i + 1] == hex_text(b)[2 * i + 1]);
        assert((2 * i) / 2 == i && (2 * i) % 2 == 0);
        assert((2 * i + 1) / 2 == i && (2 * i + 1) % 2 == 1);
        assert(hex_text(a)[2 * i] == hex_digit(a[i] as int / 16));
        assert(hex_text(b)[2 * i] == hex_digit(b[i] as int / 16));
        assert(hex_text(a)[2 * i + 1] == hex_digit(a[i] as int % 16));
        assert(hex_text(b)[2 * i + 1] == hex_digit(b[i] as int % 16));
        lemma_hex_digit(a[i] as int / 16, b[i] as int / 16);
        lemma_hex_digit(a[i] as int % 16, b[i] as int % 16);
    }
    assert(a =~= b);
}

/// Hexadecimal text holds nothing but digits.
pub proof fn hex_text_is_digits(data: Seq<u8>)
    ensures
        forall|i: int| 0 <= i < hex_text(data).len() ==> is_hex_digit(#[trigger] hex_text(data)[i]),
{
}

/// Calls `sha2::Sha256`: a new hasher is given all of `data` and finished. The
/// digest is named, and it has 32 bytes.
#[verifier::external_body]
fn sha256(data: &[u8]) -> (digest: Vec<u8>)
    ensures
        digest@ == sha256_digest(data@),
        digest@.len() == 32,
{
    let mut hasher = Sha256::new();
    hasher.update(data);
    hasher.finalize().to_vec()
}

/// Calls `hex::encode`, which writes two lower case digits for each byte.
#[verifier::external_body]
fn hex_encode(data: &Vec<u8>) -> (text: String)
    ensures
        text@ == hex_text(data@),
{
    hex::encode(data)
}

/// The digest of `data` as 64 hexadecimal digits.
pub fn digest_of(data: &[u8]) -> (text: String)
    ensures
        text@ == digest_text(data@),
        text@.len() == 64,
        forall|i: int| 0 <= i < text@.len() ==> is_hex_digit(#[trigger] text@[i]),
{
    let digest: Vec<u8> = sha256(data);
    proof {
        hex_text_is_digits(digest@);
    }
    hex_encode(&digest)
}

} // verus!
