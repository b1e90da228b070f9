//! The cryptographic and random primitives the authentication code uses, each
//! a thin trusted wrapper around one function of an outside crate.
use vstd::prelude::*;
use vstd::utf8::*;

use base64::Engine;
use hmac::Mac;
use rsa::pkcs8::DecodePublicKey;
use rand::Rng;
use sha2::Digest;

verus! {

/// The 32-byte SHA-256 digest of `data`.
pub uninterp spec fn sha256(data: Seq<u8>) -> Seq<u8>;

/// The 32-byte HMAC-SHA-256 of `data` under `key`.
pub uninterp spec fn hmac_sha256(key: Seq<u8>, data: Seq<u8>) -> Seq<u8>;

/// The first 32 bytes of PBKDF2 with HMAC-SHA-256 over `password` and `salt`
/// with `rounds` iterations.
pub uninterp spec fn pbkdf2_hmac_sha256(password: Seq<u8>, salt: Seq<u8>, rounds: u32) -> Seq<u8>;

/// What the standard (padded, canonical) Base64 decoder gives for `text`:
/// `None` where it rejects the input.
pub uninterp spec fn base64_decode(text: Seq<u8>) -> Option<Seq<u8>>;

/// The RSA public key that a PEM-encoded SubjectPublicKeyInfo document
/// denotes, or `None` where it does not parse.
pub uninterp spec fn rsa_public_key_of_pem(pem: Seq<char>) -> Option<rsa::RsaPublicKey>;

/// Whether `ciphertext` is an RSA-OAEP encryption (SHA-1 digest and mask
/// generation, no label) of `plaintext` under `key`. Encryption draws fresh
/// randomness, so one plaintext has many such ciphertexts.
pub uninterp spec fn rsa_oaep_sha1_encrypts(
    key: rsa::RsaPublicKey,
    plaintext: Seq<u8>,
    ciphertext: Seq<u8>,
) -> bool;

/// The size of `key`'s modulus in bytes.
pub uninterp spec fn rsa_key_size(key: rsa::RsaPublicKey) -> nat;

/// Whether `key` passes the public-key check of the `rsa` crate (odd
/// modulus above the exponent, odd exponent within the allowed range), as
/// every key that `RsaPublicKey::new` builds does.
pub uninterp spec fn rsa_key_checked(key: rsa::RsaPublicKey) -> bool;

/// The standard Base64 alphabet.
pub open spec fn base64_char(v: int) -> char {
    if v < 26 {
        ((65 + v) as u8) as char
    } else if v < 52 {
        ((97 + v - 26) as u8) as char
    } else if v < 62 {
        ((48 + v - 52) as u8) as char
    } else if v == 62 {
        '+'
    } else {
        '/'
    }
}

/// Standard Base64 encoding with `=` padding: each group of three bytes
/// becomes four characters; a final group of one or two bytes is padded.
pub open spec fn base64_encode(b: Seq<u8>) -> Seq<char>
    decreases b.len(),
{
    if b.len() == 0 {
        seq![]
    } else {
        let x0 = b[0] as int;
        let x1 = if b.len() > 1 { b[1] as int } else { 0 };
        let x2 = if b.len() > 2 { b[2] as int } else { 0 };
        if b.len() == 1 {
            seq![base64_char(x0 / 4), base64_char((x0 % 4) * 16), '=', '=']
        } else if b.len() == 2 {
            seq![
                base64_char(x0 / 4),
                base64_char((x0 % 4) * 16 + x1 / 16),
                base64_char((x1 % 16) * 4),
                '=',
            ]
        } else {
            seq![
                base64_char(x0 / 4),
                base64_char((x0 % 4) * 16 + x1 / 16),
                base64_char((x1 % 16) * 4 + x2 / 64),
                base64_char(x2 % 64),
            ] + base64_encode(b.skip(3))
        }
    }
}

/// An ASCII letter or digit.
pub open spec fn is_ascii_alphanumeric(c: u8) -> bool {
    (48 <= c <= 57) || (65 <= c <= 90) || (97 <= c <= 122)
}

#[verifier::external_type_specification]
#[verifier::external_body]
pub struct ExInvalidLength(hmac::digest::InvalidLength);

#[verifier::external_type_specification]
#[verifier::external_body]
pub struct ExDecodeError(base64::DecodeError);

#[verifier::external_type_specification]
#[verifier::external_body]
pub struct ExRsaPublicKey(rsa::RsaPublicKey);

/// SHA-256 of `data`.
///
/// Trusted: calls `sha2::Sha256::digest`; the result is named by `sha256`
/// and is 32 bytes long.
#[verifier::external_body]
pub(crate) fn sha256_digest(data: &[u8]) -> (r: Vec<u8>)
    ensures
        r@ == sha256(data@),
        r@.len() == 32,
{
    sha2::Sha256::digest(data).to_vec()
}

/// HMAC-SHA-256 of `data` under `key`.
///
/// Trusted: builds `hmac::Hmac<Sha256>` with `Mac::new_from_slice`, feeds
/// `data` with `update` and returns `finalize`. The result is named by
/// `hmac_sha256` and is 32 bytes long; HMAC accepts keys of every length, so
/// the source never takes the error branch of `new_from_slice`.
#[verifier::external_body]
pub(crate) fn hmac_sha256_mac(key: &[u8], data: &[u8]) -> (r: Result<Vec<u8>, hmac::digest::InvalidLength>)
    ensures
        r is Ok,
        r matches Ok(m) ==> m@ == hmac_sha256(key@, data@) && m@.len() == 32,
{
    match <hmac::Hmac<sha2::Sha256> as Mac>::new_from_slice(key) {
        Ok(mut mac) => {
            mac.update(data);
            Ok(mac.finalize().into_bytes().to_vec())
        },
        Err(e) => Err(e),
    }
}

/// PBKDF2-HMAC-SHA-256 of `password` and `salt`, 32 bytes of output.
///
/// Trusted: calls `pbkdf2::pbkdf2_hmac::<Sha256>` with a 32-byte output
/// buffer; the result is named by `pbkdf2_hmac_sha256`. The source does not
/// panic for any round count.
#[verifier::external_body]
pub(crate) fn pbkdf2_sha256(password: &[u8], salt: &[u8], rounds: u32) -> (r: Vec<u8>)
    ensures
        r@ == pbkdf2_hmac_sha256(password@, salt@, rounds),
        r@.len() == 32,
{
    let mut out = [0u8; 32];
    pbkdf2::pbkdf2_hmac::<sha2::Sha256>(password, salt, rounds, &mut out);
    out.to_vec()
}

/// Decodes standard Base64.
///
/// Trusted: calls `base64::engine::general_purpose::STANDARD.decode`; the
/// outcome is named by `base64_decode`. The standard engine requires
/// canonical padding and zero trailing bits, so text it accepts is exactly
/// the padded encoding (`base64_encode`) of the bytes it gives back.
#[verifier::external_body]
pub(crate) fn base64_standard_decode(text: &[u8]) -> (r: Result<Vec<u8>, base64::DecodeError>)
    ensures
        r is Ok <==> base64_decode(text@) is Some,
        r matches Ok(v) ==> base64_decode(text@) == Some(v@),
        r matches Ok(v) ==> text@ == encode_utf8(base64_encode(v@)),
{
    base64::engine::general_purpose::STANDARD.decode(text)
}

/// Encodes standard Base64 with padding.
///
/// Trusted: calls `base64::engine::general_purpose::STANDARD.encode`, which
/// the contract states in full through `base64_encode`; the standard
/// decoder gives the data back from that text. The source panics only when
/// the output length overflows `usize`, which `requires` rules out.
#[verifier::external_body]
pub(crate) fn base64_standard_encode(data: &[u8]) -> (r: String)
    requires
        data@.len() / 3 * 4 + 4 <= usize::MAX,
    ensures
        r@ == base64_encode(data@),
        base64_decode(encode_utf8(r@)) == Some(data@),
{
    base64::engine::general_purpose::STANDARD.encode(data)
}

/// One random ASCII letter or digit.
///
/// Trusted: calls `rand::rng().sample(rand::distr::Alphanumeric)`, which
/// samples uniformly from `A-Z`, `a-z` and `0-9`. Which character comes is
/// left unsaid.
#[verifier::external_body]
pub(crate) fn random_alphanumeric() -> (c: u8)
    ensures
        is_ascii_alphanumeric(c),
{
    rand::rng().sample(rand::distr::Alphanumeric)
}

/// Parses a PEM-encoded RSA public key.
///
/// Trusted: calls `RsaPublicKey::from_public_key_pem`; which key (or whether
/// any) is named by `rsa_public_key_of_pem`. The key is built by
/// `RsaPublicKey::new`, which runs the public-key check
/// (`rsa_key_checked`). The error's text comes from the outside error's
/// `Display` and is left unsaid.
#[verifier::external_body]
pub(crate) fn rsa_public_key_from_pem(pem: &str) -> (r: Result<rsa::RsaPublicKey, String>)
    ensures
        r is Ok <==> rsa_public_key_of_pem(pem@) is Some,
        r matches Ok(k) ==> rsa_public_key_of_pem(pem@) == Some(k) && rsa_key_checked(k),
{
    match rsa::RsaPublicKey::from_public_key_pem(pem) {
        Ok(k) => Ok(k),
        Err(e) => Err(e.to_string()),
    }
}

/// Encrypts `data` with RSA-OAEP (SHA-1) under `key`, using the operating
/// system's random source.
///
/// Trusted: calls `RsaPublicKey::encrypt` with `OsRng` and
/// `Oaep::new::<Sha1>()`. A ciphertext that comes back is an OAEP encryption
/// of `data` under `key` (`rsa_oaep_sha1_encrypts`), padded to the modulus
/// size (`uint_to_be_pad(.., pub_key.size())` in the source). The source
/// refuses only a key that fails the public-key check and a message longer
/// than the modulus size minus 42 (twice the SHA-1 digest size plus 2);
/// for a checked key and a message that fits, encryption succeeds (a failing
/// random source panics in `OsRng` instead of returning an error). The
/// ciphertext's bytes depend on fresh randomness and are left unsaid, and so
/// is the error's text.
#[verifier::external_body]
pub(crate) fn rsa_oaep_sha1_encrypt(key: &rsa::RsaPublicKey, data: &[u8]) -> (r: Result<Vec<u8>, String>)
    ensures
        r matches Ok(c) ==> rsa_oaep_sha1_encrypts(*key, data@, c@) && c@.len() == rsa_key_size(
            *key,
        ),
        rsa_key_checked(*key) && data@.len() + 42 <= rsa_key_size(*key) ==> r is Ok,
{
    match key.encrypt(&mut rsa::rand_core::OsRng, rsa::Oaep::new::<sha1::Sha1>(), data) {
        Ok(c) => Ok(c),
        Err(e) => Err(e.to_string()),
    }
}

} // verus!
