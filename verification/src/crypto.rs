//! Conditional-encryption codec for stored URLs.
//!
//! URLs are sealed with AES-256-GCM under the process-wide 32-byte key,
//! with a fresh 12-byte nonce per call, and the nonce and the sealed bytes
//! are carried together in one standard base64 text, so decryption is
//! self-contained given only the key and that text.  Decryption fails — it
//! never returns partially decrypted data — on malformed encodings, on tag
//! mismatch and on any corruption.

use vstd::prelude::*;

use aes_gcm::aead::Aead;
use aes_gcm::KeyInit;
use base64::Engine;
use rand::RngCore;

verus! {

use vstd::utf8::{
    decode_utf8,
    decode_utf8_encode_utf8,
    encode_utf8,
    encode_utf8_decode_utf8,
    encode_utf8_valid_utf8,
    valid_utf8,
};

/// Encryption failed; the caller decides whether to degrade or abort.
#[derive(Clone, Copy, Debug, PartialEq, Eq, Structural)]
pub struct EncryptError;

/// The given text is not an authentic ciphertext under the key: malformed
/// encoding, failed tag verification, or corrupted contents.
#[derive(Clone, Copy, Debug, PartialEq, Eq, Structural)]
pub struct DecryptError;

/// The longest plaintext AES-GCM seals, in bytes: the cipher rejects
/// anything longer, and nothing is stated of sealing beyond this bound.
pub const MAX_PLAINTEXT_BYTES: u64 = 0x10_0000_0000;

/// The AES-256-GCM sealing of a plaintext under a key and nonce: sealed
/// bytes with the authentication tag appended.  Sealing is a function of
/// exactly these three arguments.
pub uninterp spec fn sealed_of(key: Seq<u8>, nonce: Seq<u8>, plaintext: Seq<u8>) -> Seq<u8>;

/// The standard base64 text of a byte sequence.
pub uninterp spec fn b64_of(bytes: Seq<u8>) -> Seq<char>;

/// The length of the nonce AES-GCM uses, in bytes.
pub open spec fn spec_nonce_len() -> int {
    12
}

/// `cipher` is a text that the codec can have produced for `plain` under
/// `key`: the base64 of some 12-byte nonce followed by the AES-256-GCM
/// sealing of the UTF-8 bytes of `plain` under that key and nonce.
pub open spec fn is_encryption_of(key: Seq<u8>, cipher: Seq<char>, plain: Seq<char>) -> bool {
    &&& encode_utf8(plain).len() <= MAX_PLAINTEXT_BYTES as int
    &&& exists|nonce: Seq<u8>|
        nonce.len() == spec_nonce_len() && cipher == b64_of(
            nonce + #[trigger] sealed_of(key, nonce, encode_utf8(plain)),
        )
}

/// Relies on rand's `fill_bytes`: a buffer of 12 random bytes; freshness
/// per call is the scheme's nonce-reuse defence, so nothing more is
/// claimed of the value.
#[verifier::external_body]
fn random_nonce() -> (r: Vec<u8>)
    ensures
        r@.len() == spec_nonce_len(),
{
    let mut buf = vec![0u8; 12];
    rand::thread_rng().fill_bytes(buf.as_mut_slice());
    buf
}

/// Relies on aes-gcm's `Aes256Gcm::encrypt` (with `new_from_slice` for the
/// key): deterministic sealing of the plaintext under key and nonce, tag
/// appended.  The cipher rejects exactly the plaintexts longer than its
/// stated maximum.
#[verifier::external_body]
fn aead_seal(key: &Vec<u8>, nonce: &Vec<u8>, plaintext: &Vec<u8>) -> (r: Option<Vec<u8>>)
    requires
        key@.len() == 32,
        nonce@.len() == spec_nonce_len(),
    ensures
        r matches Some(ct) ==> ct@ == sealed_of(key@, nonce@, plaintext@),
        r is Some <==> plaintext@.len() <= MAX_PLAINTEXT_BYTES as int,
{
    let cipher = match aes_gcm::Aes256Gcm::new_from_slice(key.as_slice()) {
        Ok(c) => c,
        Err(_) => return None,
    };
    cipher.encrypt(aes_gcm::Nonce::from_slice(nonce.as_slice()), plaintext.as_slice()).ok()
}

/// Relies on aes-gcm's `Aes256Gcm::decrypt` (with `new_from_slice` for the
/// key): it inverts sealing under the same key and nonce, and it verifies
/// the appended tag, so it returns bytes only for the ciphertext that
/// sealing those bytes produces.  The cipher's decrypt bound exceeds its
/// encrypt bound by the tag length, so a returned plaintext may be up to
/// 16 bytes longer than anything sealing accepts; every clause therefore
/// speaks only of plaintexts within the sealing maximum, the domain the
/// encrypt side defines, and the caller rejects longer outputs itself.
#[verifier::external_body]
fn aead_open(key: &Vec<u8>, nonce: &Vec<u8>, ciphertext: &Vec<u8>) -> (r: Option<Vec<u8>>)
    requires
        key@.len() == 32,
        nonce@.len() == spec_nonce_len(),
    ensures
        r matches Some(pt) ==> (pt@.len() <= MAX_PLAINTEXT_BYTES as int ==> ciphertext@
            == sealed_of(key@, nonce@, pt@)),
        r matches Some(pt) ==> forall|q: Seq<u8>|
            q.len() <= MAX_PLAINTEXT_BYTES as int && ciphertext@ == sealed_of(key@, nonce@, q)
                ==> pt@ == q,
        r is None ==> forall|q: Seq<u8>|
            q.len() <= MAX_PLAINTEXT_BYTES as int ==> ciphertext@ != sealed_of(key@, nonce@, q),
{
    let cipher = match aes_gcm::Aes256Gcm::new_from_slice(key.as_slice()) {
        Ok(c) => c,
        Err(_) => return None,
    };
    cipher.decrypt(aes_gcm::Nonce::from_slice(nonce.as_slice()), ciphertext.as_slice()).ok()
}

/// Relies on base64's standard engine with canonical padding: `encode`
/// emits the base64 text of the bytes.
#[verifier::external_body]
fn b64_encode(bytes: &Vec<u8>) -> (r: String)
    ensures
        r@ == b64_of(bytes@),
{
    base64::engine::general_purpose::STANDARD.encode(bytes.as_slice())
}

/// Relies on base64's standard engine with canonical padding: `decode`
/// accepts exactly the canonical encodings, and inverts `encode`.
#[verifier::external_body]
fn b64_decode(s: &str) -> (r: Option<Vec<u8>>)
    ensures
        r matches Some(b) ==> s@ == b64_of(b@),
        r matches Some(b) ==> forall|q: Seq<u8>| s@ == b64_of(q) ==> b@ == q,
        r is None ==> forall|q: Seq<u8>| s@ != b64_of(q),
{
    base64::engine::general_purpose::STANDARD.decode(s).ok()
}

/// Relies on `String::from_utf8`: it succeeds exactly on valid UTF-8 and
/// returns the decoded characters.
#[verifier::external_body]
fn bytes_to_string(bytes: Vec<u8>) -> (r: Option<String>)
    ensures
        r is Some <==> valid_utf8(bytes@),
        r matches Some(s) ==> s@ == decode_utf8(bytes@),
{
    String::from_utf8(bytes).ok()
}

/// Encrypts a URL for storage.  On success the returned text is an
/// authentic ciphertext of exactly the given URL under the key, so
/// `decrypt_url` recovers the URL from it — and encryption succeeds
/// exactly when the URL's UTF-8 bytes fit the cipher's plaintext maximum,
/// which every real URL does.
pub fn encrypt_url(url: &str, key: &Vec<u8>) -> (r: Result<String, EncryptError>)
    requires
        key@.len() == 32,
    ensures
        r matches Ok(c) ==> is_encryption_of(key@, c@, url@),
        r is Ok <==> encode_utf8(url@).len() <= MAX_PLAINTEXT_BYTES as int,
{
    let nonce = random_nonce();
    let plaintext = vstd::slice::slice_to_vec(url.as_bytes());
    let sealed = match aead_seal(key, &nonce, &plaintext) {
        Some(ct) => ct,
        None => {
            return Err(EncryptError);
        },
    };
    let ghost nonce_view = nonce@;
    let mut framed = nonce;
    framed.extend_from_slice(sealed.as_slice());
    let text = b64_encode(&framed);
    proof {
        assert(framed@ == nonce_view + sealed_of(key@, nonce_view, encode_utf8(url@)));
        assert(is_encryption_of(key@, text@, url@));
    }
    Ok(text)
}

/// Decrypts a stored ciphertext text.  Exactly the authentic ciphertexts
/// under the key are accepted, and each decrypts to the one URL it was
/// produced from; everything else — malformed base64, a truncated frame, a
/// failed tag check, sealed bytes that are not UTF-8 — fails with
/// `DecryptError`.
pub fn decrypt_url(cipher_text: &str, key: &Vec<u8>) -> (r: Result<String, DecryptError>)
    requires
        key@.len() == 32,
    ensures
        r matches Ok(p) ==> is_encryption_of(key@, cipher_text@, p@),
        forall|plain: Seq<char>|
            is_encryption_of(key@, cipher_text@, plain) ==> (r matches Ok(p) && p@ == plain),
{
    let bytes = match b64_decode(cipher_text) {
        Some(b) => b,
        None => {
            proof {
                assert forall|plain: Seq<char>|
                    !is_encryption_of(key@, cipher_text@, plain) by {
                    if is_encryption_of(key@, cipher_text@, plain) {
                        let nonce = choose|nonce: Seq<u8>|
                            nonce.len() == spec_nonce_len() && cipher_text@ == b64_of(
                                nonce + #[trigger] sealed_of(key@, nonce, encode_utf8(plain)),
                            );
                        assert(cipher_text@ == b64_of(
                            nonce + sealed_of(key@, nonce, encode_utf8(plain)),
                        ));
                    }
                }
            }
            return Err(DecryptError);
        },
    };
    if bytes.len() < 12 {
        proof {
            assert forall|plain: Seq<char>| !is_encryption_of(key@, cipher_text@, plain) by {
                if is_encryption_of(key@, cipher_text@, plain) {
                    let nonce = choose|nonce: Seq<u8>|
                        nonce.len() == spec_nonce_len() && cipher_text@ == b64_of(
                            nonce + #[trigger] sealed_of(key@, nonce, encode_utf8(plain)),
                        );
                    assert(bytes@ == nonce + sealed_of(key@, nonce, encode_utf8(plain)));
                }
            }
        }
        return Err(DecryptError);
    }
    let mut nonce: Vec<u8> = Vec::new();
    let mut i: usize = 0;
    while i < 12
        invariant
            i <= 12,
            bytes@.len() >= 12,
            nonce@ == bytes@.subrange(0, i as int),
        decreases 12 - i,
    {
        nonce.push(bytes[i]);
        proof {
            assert(nonce@ =~= bytes@.subrange(0, i + 1));
        }
        i += 1;
    }
    let mut sealed: Vec<u8> = Vec::new();
    let mut j: usize = 12;
    while j < bytes.len()
        invariant
            12 <= j <= bytes@.len(),
            sealed@ == bytes@.subrange(12, j as int),
        decreases bytes@.len() - j,
    {
        sealed.push(bytes[j]);
        proof {
            assert(sealed@ =~= bytes@.subrange(12, j + 1));
        }
        j += 1;
    }
    proof {
        assert(bytes@ =~= nonce@ + sealed@);
    }
    let opened = match aead_open(key, &nonce, &sealed) {
        Some(p) => p,
        None => {
            proof {
                assert forall|plain: Seq<char>|
                    !is_encryption_of(key@, cipher_text@, plain) by {
                    if is_encryption_of(key@, cipher_text@, plain) {
                        let n2 = choose|n2: Seq<u8>|
                            n2.len() == spec_nonce_len() && cipher_text@ == b64_of(
                                n2 + #[trigger] sealed_of(key@, n2, encode_utf8(plain)),
                            );
                        let framed = n2 + sealed_of(key@, n2, encode_utf8(plain));
                        assert(bytes@ == framed);
                        assert(n2 =~= nonce@);
                        assert(sealed_of(key@, n2, encode_utf8(plain)) =~= sealed@);
                    }
                }
            }
            return Err(DecryptError);
        },
    };
    if opened.len() as u64 > MAX_PLAINTEXT_BYTES {
        // The cipher's decrypt bound allows up to 16 bytes more than
        // sealing ever produces; nothing this long is an authentic
        // ciphertext, so reject it.
        proof {
            assert forall|plain: Seq<char>| !is_encryption_of(key@, cipher_text@, plain) by {
                if is_encryption_of(key@, cipher_text@, plain) {
                    let n2 = choose|n2: Seq<u8>|
                        n2.len() == spec_nonce_len() && cipher_text@ == b64_of(
                            n2 + #[trigger] sealed_of(key@, n2, encode_utf8(plain)),
                        );
                    let framed = n2 + sealed_of(key@, n2, encode_utf8(plain));
                    assert(bytes@ == framed);
                    assert(n2 =~= nonce@);
                    assert(sealed_of(key@, n2, encode_utf8(plain)) =~= sealed@);
                    assert(opened@ == encode_utf8(plain));
                }
            }
        }
        return Err(DecryptError);
    }
    proof {
        assert(opened@.len() <= MAX_PLAINTEXT_BYTES as int);
        assert(sealed@ == sealed_of(key@, nonce@, opened@));
    }
    let url = match bytes_to_string(opened) {
        Some(s) => s,
        None => {
            proof {
                assert forall|plain: Seq<char>|
                    !is_encryption_of(key@, cipher_text@, plain) by {
                    if is_encryption_of(key@, cipher_text@, plain) {
                        let n2 = choose|n2: Seq<u8>|
                            n2.len() == spec_nonce_len() && cipher_text@ == b64_of(
                                n2 + #[trigger] sealed_of(key@, n2, encode_utf8(plain)),
                            );
                        let framed = n2 + sealed_of(key@, n2, encode_utf8(plain));
                        assert(bytes@ == framed);
                        assert(n2 =~= nonce@);
                        assert(sealed_of(key@, n2, encode_utf8(plain)) =~= sealed@);
                        encode_utf8_valid_utf8(plain);
                    }
                }
            }
            return Err(DecryptError);
        },
    };
    proof {
        decode_utf8_encode_utf8(opened@);
        assert(cipher_text@ == b64_of(nonce@ + sealed_of(key@, nonce@, encode_utf8(url@))));
        assert(is_encryption_of(key@, cipher_text@, url@));
        assert forall|plain: Seq<char>|
            is_encryption_of(key@, cipher_text@, plain) implies url@ == plain by {
            let n2 = choose|n2: Seq<u8>|
                n2.len() == spec_nonce_len() && cipher_text@ == b64_of(
                    n2 + #[trigger] sealed_of(key@, n2, encode_utf8(plain)),
                );
            let framed = n2 + sealed_of(key@, n2, encode_utf8(plain));
            assert(bytes@ == framed);
            assert(n2 =~= nonce@);
            assert(sealed_of(key@, n2, encode_utf8(plain)) =~= sealed@);
            assert(opened@ == encode_utf8(plain));
            encode_utf8_decode_utf8(plain);
        }
    }
    Ok(url)
}

} // verus!
