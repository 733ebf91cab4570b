//! The calls this library makes into ed25519-dalek, base64, hex, rand and
//! url, each behind a contract that states what the library relies on.
use vstd::prelude::*;

use ed25519_dalek::{PublicKey, SecretKey, Signature, Signer, Verifier};
use rand::RngCore;

verus! {

/// The Ed25519 public key derived from a 32-byte secret key.
pub uninterp spec fn ed25519_public_of(secret: Seq<u8>) -> Seq<u8>;

/// The Ed25519 signature of `message` under a 32-byte secret key
/// (Ed25519 signing is deterministic).
pub uninterp spec fn ed25519_signature_of(secret: Seq<u8>, message: Seq<u8>) -> Seq<u8>;

/// Whether Ed25519 verification accepts `signature` on `message` under the
/// encoded public key `public`.
pub uninterp spec fn ed25519_accepts(public: Seq<u8>, message: Seq<u8>, signature: Seq<u8>) -> bool;

/// The standard, padded base64 text of `bytes`.
pub uninterp spec fn base64_of(bytes: Seq<u8>) -> Seq<char>;

/// What standard base64 decoding makes of `text`, if it is valid base64.
pub uninterp spec fn base64_decoded(text: Seq<char>) -> Option<Seq<u8>>;

/// Whether the text parses as an absolute URL.
pub uninterp spec fn url_parses(url: Seq<char>) -> bool;

/// The host of a parsed URL, if it has one.
pub uninterp spec fn url_host_of(url: Seq<char>) -> Option<Seq<char>>;

/// The path of a parsed URL.
pub uninterp spec fn url_path_of(url: Seq<char>) -> Seq<char>;

/// The query of a parsed URL, if it has one.
pub uninterp spec fn url_query_of(url: Seq<char>) -> Option<Seq<char>>;

/// A lowercase hexadecimal digit.
pub open spec fn hex_digit(n: int) -> char {
    if n < 10 {
        crate::text::digit_char(n)
    } else if n == 10 {
        'a'
    } else if n == 11 {
        'b'
    } else if n == 12 {
        'c'
    } else if n == 13 {
        'd'
    } else if n == 14 {
        'e'
    } else {
        'f'
    }
}

/// Lowercase hexadecimal text of `bytes`: two digits per byte, high nibble
/// first.
pub open spec fn hex_text(bytes: Seq<u8>) -> Seq<char>
    decreases bytes.len(),
{
    if bytes.len() == 0 {
        Seq::empty()
    } else {
        let b = bytes.last();
        hex_text(bytes.drop_last()) + seq![hex_digit(b as int / 16), hex_digit(b as int % 16)]
    }
}

/// Relies on ed25519-dalek's `PublicKey::from(&SecretKey)`: the public key is
/// determined by the secret key (`SecretKey::from_bytes` accepts any 32 bytes).
#[verifier::external_body]
pub(crate) fn ed25519_public(secret: &[u8; 32]) -> (r: [u8; 32])
    ensures
        r@ == ed25519_public_of(secret@),
{
    let sk = SecretKey::from_bytes(secret).unwrap();
    PublicKey::from(&sk).to_bytes()
}

/// Relies on ed25519-dalek's `Keypair::sign`: deterministic signing with the
/// key pair made of the secret key and its derived public key.
#[verifier::external_body]
pub(crate) fn ed25519_sign(secret: &[u8; 32], message: &[u8]) -> (r: [u8; 64])
    ensures
        r@ == ed25519_signature_of(secret@, message@),
{
    let sk = SecretKey::from_bytes(secret).unwrap();
    let pk = PublicKey::from(&sk);
    let keypair = ed25519_dalek::Keypair { secret: sk, public: pk };
    keypair.sign(message).to_bytes()
}

/// Relies on ed25519-dalek's `PublicKey::verify` (after `PublicKey::from_bytes`
/// and `Signature::try_from`): it accepts exactly what Ed25519 verification
/// accepts, and in particular every signature made by `Keypair::sign` with the
/// matching secret key.
#[verifier::external_body]
pub(crate) fn ed25519_verify(public: &[u8], message: &[u8], signature: &[u8]) -> (r: bool)
    ensures
        r == ed25519_accepts(public@, message@, signature@),
        forall|secret: Seq<u8>|
            #![trigger ed25519_signature_of(secret, message@)]
            secret.len() == 32 && public@ == ed25519_public_of(secret) && signature@
                == ed25519_signature_of(secret, message@) ==> r,
{
    match (PublicKey::from_bytes(public), Signature::try_from(signature)) {
        (Ok(pk), Ok(sig)) => pk.verify(message, &sig).is_ok(),
        _ => false,
    }
}

/// Relies on ed25519-dalek's `SecretKey::generate` with rand's `OsRng`: a
/// fresh random secret key.
#[verifier::external_body]
pub(crate) fn random_secret_key() -> (r: [u8; 32]) {
    let mut rng = rand::rngs::OsRng;
    SecretKey::generate(&mut rng).to_bytes()
}

/// Relies on rand's `OsRng::fill_bytes`: sixteen random bytes.
#[verifier::external_body]
pub(crate) fn random_bytes_16() -> (r: [u8; 16]) {
    let mut bytes = [0u8; 16];
    rand::rngs::OsRng.fill_bytes(&mut bytes);
    bytes
}

/// Relies on base64's `encode` (standard alphabet, padded).
#[verifier::external_body]
pub(crate) fn base64_encode(bytes: &[u8]) -> (r: String)
    ensures
        r@ == base64_of(bytes@),
        r@.len() == 4 * ((bytes@.len() + 2) / 3),
{
    base64::encode(bytes)
}

/// Relies on base64's `decode` (standard alphabet): it inverts `encode`.
#[verifier::external_body]
pub(crate) fn base64_decode(text: &str) -> (r: Option<Vec<u8>>)
    ensures
        r.deep_view() == base64_decoded(text@),
        forall|b: Seq<u8>|
            #![trigger base64_of(b)]
            text@ == base64_of(b) ==> r.deep_view() == Some(b),
{
    base64::decode(text).ok()
}

/// Relies on hex's `encode`: two lowercase digits per byte, in order.
#[verifier::external_body]
pub(crate) fn hex_encode(bytes: &[u8]) -> (r: String)
    ensures
        r@ == hex_text(bytes@),
{
    hex::encode(bytes)
}

/// The host, path and query of a parsed URL, as text.
pub struct UrlParts {
    pub host: Option<String>,
    pub path: String,
    pub query: Option<String>,
}

/// Relies on url's `Url::parse`, then `host_str`, `path` and `query` on the
/// parsed URL; the parse error's text when the text does not parse.
#[verifier::external_body]
pub(crate) fn parse_url(url: &str) -> (r: Result<UrlParts, String>)
    ensures
        r is Ok <==> url_parses(url@),
        r matches Ok(u) ==> (match u.host {
            Some(h) => url_host_of(url@) == Some(h@),
            None => url_host_of(url@) is None,
        }),
        r matches Ok(u) ==> u.path@ == url_path_of(url@),
        r matches Ok(u) ==> (match u.query {
            Some(q) => url_query_of(url@) == Some(q@),
            None => url_query_of(url@) is None,
        }),
{
    let parsed = url::Url::parse(url).map_err(|e| e.to_string())?;
    Ok(UrlParts {
        host: parsed.host_str().map(|h| h.to_string()),
        path: parsed.path().to_string(),
        query: parsed.query().map(|q| q.to_string()),
    })
}

} // verus!
