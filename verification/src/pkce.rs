//! Proof Key for Code Exchange (RFC 7636): a random code verifier, sent
//! with the token request, and its S256 challenge, sent with the consent
//! URL.

use vstd::prelude::*;
use vstd::utf8::*;
use sha2::Digest;

verus! {

broadcast use vstd::string::group_string_axioms;

/// The base64url digit for `n < 64`: `A`-`Z`, `a`-`z`, `0`-`9`, `-`, `_`.
pub open spec fn b64_char(n: int) -> char {
    if n < 26 {
        (65 + n) as char
    } else if n < 52 {
        (97 + n - 26) as char
    } else if n < 62 {
        (48 + n - 52) as char
    } else if n == 62 {
        '-'
    } else {
        '_'
    }
}

/// Base64url without padding: each three bytes give four digits, two
/// trailing bytes three, and a trailing byte two.
pub open spec fn b64url(bs: Seq<u8>) -> Seq<char>
    decreases bs.len(),
{
    if bs.len() == 0 {
        seq![]
    } else if bs.len() == 1 {
        seq![b64_char((bs[0] as int) / 4), b64_char(((bs[0] as int) % 4) * 16)]
    } else if bs.len() == 2 {
        seq![
            b64_char((bs[0] as int) / 4),
            b64_char(((bs[0] as int) % 4) * 16 + (bs[1] as int) / 16),
            b64_char(((bs[1] as int) % 16) * 4),
        ]
    } else {
        seq![
            b64_char((bs[0] as int) / 4),
            b64_char(((bs[0] as int) % 4) * 16 + (bs[1] as int) / 16),
            b64_char(((bs[1] as int) % 16) * 4 + (bs[2] as int) / 64),
            b64_char((bs[2] as int) % 64),
        ] + b64url(bs.skip(3))
    }
}

/// The number of digits of `b64url` for `n` bytes.
pub open spec fn b64url_len(n: nat) -> nat {
    (n / 3) * 4 + if n % 3 == 0 {
        0
    } else {
        n % 3 + 1
    }
}

/// Base64url text has `b64url_len` digits.
pub proof fn lemma_b64url_len(bs: Seq<u8>)
    ensures
        b64url(bs).len() == b64url_len(bs.len()),
    decreases bs.len(),
{
    if bs.len() >= 3 {
        lemma_b64url_len(bs.skip(3));
    }
}

/// The digit for `n < 64`.
fn b64_digit(n: u8) -> (c: char)
    requires
        n < 64,
    ensures
        c == b64_char(n as int),
{
    if n < 26 {
        (65 + n) as char
    } else if n < 52 {
        (71 + n) as char
    } else if n < 62 {
        (n - 4) as char
    } else if n == 62 {
        '-'
    } else {
        '_'
    }
}

/// Base64url of `bs`, without padding.
pub fn base64url(bs: &[u8]) -> (r: String)
    ensures
        r@ == b64url(bs@),
{
    let n = bs.len();
    let mut out: Vec<char> = Vec::new();
    let mut i: usize = 0;
    assert(bs@.skip(0) =~= bs@);
    while i < n
        invariant
            n == bs@.len(),
            i <= n,
            out@ + b64url(bs@.skip(i as int)) == b64url(bs@),
        decreases n - i,
    {
        let ghost rest = bs@.skip(i as int);
        let ghost before = out@;
        let b0 = bs[i];
        assert(rest[0] == b0);
        if n - i >= 3 {
            let b1 = bs[i + 1];
            let b2 = bs[i + 2];
            assert(rest[1] == b1 && rest[2] == b2);
            out.push(b64_digit(b0 / 4));
            out.push(b64_digit((b0 % 4) * 16 + b1 / 16));
            out.push(b64_digit((b1 % 16) * 4 + b2 / 64));
            out.push(b64_digit(b2 % 64));
            assert(rest.skip(3) =~= bs@.skip(i + 3));
            assert(out@ =~= before + b64url(rest).take(4));
            i = i + 3;
        } else if n - i == 2 {
            let b1 = bs[i + 1];
            assert(rest[1] == b1);
            out.push(b64_digit(b0 / 4));
            out.push(b64_digit((b0 % 4) * 16 + b1 / 16));
            out.push(b64_digit((b1 % 16) * 4));
            assert(out@ =~= before + b64url(rest));
            i = n;
            assert(bs@.skip(i as int) =~= Seq::<u8>::empty());
        } else {
            out.push(b64_digit(b0 / 4));
            out.push(b64_digit((b0 % 4) * 16));
            assert(out@ =~= before + b64url(rest));
            i = n;
            assert(bs@.skip(i as int) =~= Seq::<u8>::empty());
        }
    }
    assert(bs@.skip(n as int) =~= Seq::<u8>::empty());
    assert(out@ =~= b64url(bs@));
    crate::text::string_of(&out)
}

/// The SHA-256 digest of `bytes`.
pub uninterp spec fn sha256_of(bytes: Seq<u8>) -> Seq<u8>;

/// sha2's `Sha256::digest`: the SHA-256 digest of `bytes`, 32 bytes long.
#[verifier::external_body]
pub(crate) fn sha256(bytes: &[u8]) -> (r: Vec<u8>)
    ensures
        r@ == sha256_of(bytes@),
        r@.len() == 32,
{
    sha2::Sha256::digest(bytes).to_vec()
}

/// getrandom's `getrandom`: `n` bytes from the operating system's source
/// of randomness, `None` when that source fails.  What the bytes are is
/// left open.
#[verifier::external_body]
pub(crate) fn random_bytes(n: usize) -> (r: Option<Vec<u8>>)
    ensures
        r matches Some(v) ==> v@.len() == n,
{
    let mut buf = std::vec::Vec::new();
    buf.resize(n, 0u8);
    match getrandom::getrandom(&mut buf) {
        Ok(()) => Some(buf),
        Err(_) => None,
    }
}

/// The S256 challenge of a verifier: base64url of the SHA-256 digest of
/// its bytes.
pub open spec fn challenge_of(verifier: Seq<char>) -> Seq<char> {
    b64url(sha256_of(encode_utf8(verifier)))
}

/// The S256 challenge of `verifier`.
pub fn pkce_challenge(verifier: &str) -> (r: String)
    ensures
        r@ == challenge_of(verifier@),
{
    let bs = verifier.as_bytes();
    let digest = sha256(bs);
    base64url(digest.as_slice())
}

/// A verifier made of random bytes, and its challenge.
#[derive(Debug)]
pub struct Pkce {
    pub verifier: String,
    pub challenge: String,
}

/// The verifier written from `seed` (base64url) and its S256 challenge.
pub fn pkce_from(seed: &[u8]) -> (r: Pkce)
    ensures
        r.verifier@ == b64url(seed@),
        r.verifier@.len() == b64url_len(seed@.len()),
        r.challenge@ == challenge_of(r.verifier@),
{
    proof {
        lemma_b64url_len(seed@);
    }
    let verifier = base64url(seed);
    let challenge = pkce_challenge(verifier.as_str());
    Pkce { verifier, challenge }
}

/// A fresh verifier from 32 random bytes (43 characters) and its
/// challenge; `None` when no randomness is to be had.
pub fn new_pkce() -> (r: Option<Pkce>)
    ensures
        r matches Some(p) ==> p.verifier@.len() == 43 && p.challenge@ == challenge_of(p.verifier@)
            && exists|seed: Seq<u8>| seed.len() == 32 && p.verifier@ == b64url(seed),
{
    match random_bytes(32) {
        Some(seed) => Some(pkce_from(seed.as_slice())),
        None => None,
    }
}

} // verus!
