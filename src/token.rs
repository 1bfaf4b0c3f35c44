//! The authentication token: lower-case hex of the SHA-224 digest of a shared secret.
use vstd::prelude::*;
use vstd::string::*;
use crate::handshake::{ConnectRequest, HandshakeError, encodable, frame};

verus! {

/// What SHA-224 makes of a byte sequence.
pub uninterp spec fn sha224_of(data: Seq<u8>) -> Seq<u8>;

/// Relies on `sha2::Sha224::digest`: the digest of the input, 28 bytes long.
#[verifier::external_body]
fn sha224(data: &[u8]) -> (r: Vec<u8>)
    ensures
        r@ == sha224_of(data@),
        r@.len() == 28,
{
    <sha2::Sha224 as sha2::Digest>::digest(data).to_vec()
}

/// The ASCII character of a hex digit, lower case.
pub open spec fn hex_char(v: u8) -> u8 {
    if v < 10 {
        (48 + v) as u8
    } else {
        (87 + v) as u8
    }
}

/// Two lower-case hex characters per byte, high nibble first.
pub open spec fn hex_lower(s: Seq<u8>) -> Seq<u8>
    decreases s.len(),
{
    if s.len() == 0 {
        Seq::empty()
    } else {
        hex_lower(s.drop_last()) + seq![hex_char(s.last() / 16), hex_char(s.last() % 16)]
    }
}

proof fn lemma_hex_len(s: Seq<u8>)
    ensures
        hex_lower(s).len() == 2 * s.len(),
    decreases s.len(),
{
    if s.len() > 0 {
        lemma_hex_len(s.drop_last());
    }
}

pub open spec fn token_of(password: Seq<u8>) -> Seq<u8> {
    hex_lower(sha224_of(password))
}

fn hex_digit(v: u8) -> (r: u8)
    requires
        v < 16,
    ensures
        r == hex_char(v),
{
    if v < 10 {
        48 + v
    } else {
        87 + v
    }
}

/// Lower-case hex of a byte sequence.
pub fn to_hex(s: &[u8]) -> (r: Vec<u8>)
    requires
        s@.len() <= usize::MAX / 2,
    ensures
        r@ == hex_lower(s@),
        r@.len() == 2 * s@.len(),
{
    let mut out: Vec<u8> = Vec::new();
    let mut i: usize = 0;
    while i < s.len()
        invariant
            i <= s@.len() <= usize::MAX / 2,
            out@ == hex_lower(s@.subrange(0, i as int)),
        decreases s@.len() - i,
    {
        let b = s[i];
        out.push(hex_digit(b / 16));
        out.push(hex_digit(b % 16));
        assert(s@.subrange(0, i + 1).drop_last() =~= s@.subrange(0, i as int));
        i = i + 1;
    }
    assert(s@.subrange(0, i as int) =~= s@);
    proof {
        lemma_hex_len(s@);
    }
    out
}

/// The token that a handshake must carry for a shared secret.
pub fn expected_hash(password: &str) -> (r: Vec<u8>)
    ensures
        r@ == token_of(password.spec_bytes()),
        r@.len() == crate::handshake::TOKEN_LEN,
{
    let digest = sha224(password.as_bytes());
    to_hex(digest.as_slice())
}

/// Builds the frame a client sends for a request, with the token derived from the secret.
pub fn encode(password: &str, request: &ConnectRequest) -> (r: Result<Vec<u8>, HandshakeError>)
    ensures
        r is Ok <==> encodable(request@.address),
        r matches Ok(v) ==> v@ == frame(token_of(password.spec_bytes()), request@),
        r matches Err(e) ==> e == HandshakeError::MalformedAddress,
{
    let token = expected_hash(password);
    crate::handshake::encode_with_token(token.as_slice(), request)
}

} // verus!
