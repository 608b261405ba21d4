//! AES-256-GCM encryption of record title + content.
//!
//! Blob layout: 12-byte random nonce || ciphertext || 16-byte GCM tag, with
//! the associated data `aardbin-record-v1`. The plaintext is the JSON text
//! of `crate::plaintext`.

use crate::plaintext::{decode_plaintext, encode_plaintext, law_plaintext_decodes, plaintext_bytes, record_from_bytes};
use aes_gcm::aead::{Aead, KeyInit, Payload};
use aes_gcm::{Aes256Gcm, Key, Nonce};
use rand::RngCore;
use vstd::prelude::*;

verus! {

/// AES-256-GCM encryption (`aes_gcm::Aes256Gcm`): ciphertext followed by the
/// tag.
pub uninterp spec fn aes256gcm_seal(
    key: Seq<u8>,
    nonce: Seq<u8>,
    msg: Seq<u8>,
    aad: Seq<u8>,
) -> Seq<u8>;

/// AES-256-GCM decryption (`aes_gcm::Aes256Gcm`): the plaintext, or `None`
/// when the tag does not verify.
pub uninterp spec fn aes256gcm_open(
    key: Seq<u8>,
    nonce: Seq<u8>,
    ct: Seq<u8>,
    aad: Seq<u8>,
) -> Option<Seq<u8>>;

/// `Aead::encrypt` of `Aes256Gcm`. It refuses only messages or associated
/// data longer than 2^36 bytes, which `requires` leaves out; its output is
/// the ciphertext (as long as the message) followed by a 16-byte tag.
#[verifier::external_body]
fn aes256gcm_encrypt(key: &[u8; 32], nonce: &[u8; 12], msg: &[u8], aad: &[u8]) -> (r: Vec<u8>)
    requires
        msg@.len() <= 0x10_0000_0000,
        aad@.len() <= 0x10_0000_0000,
    ensures
        r@ == aes256gcm_seal(key@, nonce@, msg@, aad@),
        r@.len() == msg@.len() + 16,
{
    Aes256Gcm::new(Key::<Aes256Gcm>::from_slice(key)).encrypt(
        Nonce::from_slice(nonce),
        Payload { msg, aad },
    ).expect("encryption cannot fail")
}

/// `Aead::decrypt` of `Aes256Gcm`: the plaintext when the tag verifies.
/// Decrypting what encryption produced under the same key, nonce and
/// associated data gives back the message (AEAD correctness).
#[verifier::external_body]
fn aes256gcm_decrypt(key: &[u8; 32], nonce: &[u8; 12], ct: &[u8], aad: &[u8]) -> (r: Option<
    Vec<u8>,
>)
    ensures
        match r {
            Some(p) => aes256gcm_open(key@, nonce@, ct@, aad@) == Some(p@),
            None => aes256gcm_open(key@, nonce@, ct@, aad@) is None,
        },
        forall|m: Seq<u8>|
            ct@ == #[trigger] aes256gcm_seal(key@, nonce@, m, aad@) ==> r is Some && r->Some_0@ == m,
{
    Aes256Gcm::new(Key::<Aes256Gcm>::from_slice(key)).decrypt(
        Nonce::from_slice(nonce),
        Payload { msg: ct, aad },
    ).ok()
}

/// Twelve bytes from the thread-local random generator (`rand::rng`).
#[verifier::external_body]
fn random_nonce() -> [u8; 12] {
    let mut n = [0u8; 12];
    rand::rng().fill_bytes(&mut n);
    n
}

/// The associated data bound to every record ciphertext.
pub open spec fn record_aad() -> Seq<u8> {
    seq![97u8, 97, 114, 100, 98, 105, 110, 45, 114, 101, 99, 111, 114, 100, 45, 118, 49]
}

/// The bytes of `aardbin-record-v1`.
fn record_aad_bytes() -> (r: [u8; 17])
    ensures
        r@ == record_aad(),
{
    let r: [u8; 17] = [97, 97, 114, 100, 98, 105, 110, 45, 114, 101, 99, 111, 114, 100, 45, 118, 49];
    assert(r@ =~= record_aad());
    r
}

/// A blob holding `title` and `content` sealed under `key` with `nonce`.
pub open spec fn sealed_record(
    key: Seq<u8>,
    nonce: Seq<u8>,
    title: Seq<char>,
    content: Seq<char>,
) -> Seq<u8> {
    nonce + aes256gcm_seal(key, nonce, plaintext_bytes(title, content), record_aad())
}

/// The title and content a blob holds under `key`: its first 12 bytes are
/// the nonce, the rest opens to plaintext that reads as a record. `None`
/// when the blob is too short, does not open, or opens to something else.
pub open spec fn opened_record(key: Seq<u8>, blob: Seq<u8>) -> Option<(Seq<char>, Seq<char>)> {
    if blob.len() < 28 {
        None
    } else {
        match aes256gcm_open(key, blob.take(12), blob.skip(12), record_aad()) {
            Some(p) => record_from_bytes(p),
            None => None,
        }
    }
}

/// Why a blob could not be decrypted (tampering, a wrong key, truncation).
#[derive(Debug)]
pub struct DecryptError;

pub struct Crypto {
    key: [u8; 32],
}

impl Clone for Crypto {
    fn clone(&self) -> (r: Self)
        ensures
            r.key() == self.key(),
    {
        Crypto { key: self.key }
    }
}

fn copy_range(b: &[u8], lo: usize, hi: usize) -> (r: Vec<u8>)
    requires
        lo <= hi <= b@.len(),
    ensures
        r@ == b@.subrange(lo as int, hi as int),
{
    let mut r: Vec<u8> = Vec::new();
    let mut i = lo;
    while i < hi
        invariant
            lo <= i <= hi <= b@.len(),
            r@ == b@.subrange(lo as int, i as int),
        decreases hi - i,
    {
        r.push(b[i]);
        i += 1;
    }
    r
}

impl Crypto {
    /// The AES-256 key.
    pub closed spec fn key(&self) -> Seq<u8> {
        self.key@
    }

    pub fn new(key: &[u8; 32]) -> (r: Self)
        ensures
            r.key() == key@,
    {
        Crypto { key: *key }
    }

    /// Encrypts title and content together with a fresh random nonce.
    /// Output: nonce || ciphertext+tag.
    pub fn encrypt(&self, title: &str, content: &str) -> (r: Vec<u8>)
        requires
            plaintext_bytes(title@, content@).len() <= 0x10_0000_0000,
        ensures
            exists|nonce: Seq<u8>|
                #![trigger sealed_record(self.key(), nonce, title@, content@)]
                nonce.len() == 12 && r@ == sealed_record(self.key(), nonce, title@, content@),
            r@.len() == 12 + plaintext_bytes(title@, content@).len() + 16,
    {
        let json = encode_plaintext(title, content);
        let nonce = random_nonce();
        let aad = record_aad_bytes();
        let ct = aes256gcm_encrypt(&self.key, &nonce, json.as_str().as_bytes(), &aad);
        let mut out: Vec<u8> = Vec::new();
        let mut i: usize = 0;
        while i < 12
            invariant
                i <= 12,
                out@ == nonce@.take(i as int),
            decreases 12 - i,
        {
            out.push(nonce[i]);
            i += 1;
        }
        let mut k: usize = 0;
        while k < ct.len()
            invariant
                k <= ct.len(),
                out@ == nonce@ + ct@.take(k as int),
            decreases ct.len() - k,
        {
            out.push(ct[k]);
            k += 1;
        }
        proof {
            assert(nonce@.take(12) =~= nonce@);
            assert(ct@.take(ct@.len() as int) =~= ct@);
            assert(out@ == sealed_record(self.key(), nonce@, title@, content@));
        }
        out
    }

    /// Decrypts a blob produced by `encrypt`. Errors on tampering, a wrong
    /// key, or a blob too short to hold a nonce and a tag.
    pub fn decrypt(&self, blob: &[u8]) -> (r: Result<(String, String), DecryptError>)
        ensures
            match r {
                Ok((t, c)) => opened_record(self.key(), blob@) == Some((t@, c@)),
                Err(_) => opened_record(self.key(), blob@) is None,
            },
            forall|nonce: Seq<u8>, t: Seq<char>, c: Seq<char>|
                nonce.len() == 12 && blob@.len() >= 28 && blob@ == #[trigger] sealed_record(
                    self.key(),
                    nonce,
                    t,
                    c,
                ) ==> r is Ok && r->Ok_0.0@ == t && r->Ok_0.1@ == c,
    {
        if blob.len() < 12 + 16 {
            return Err(DecryptError);
        }
        let mut nonce = [0u8; 12];
        let mut i: usize = 0;
        while i < 12
            invariant
                i <= 12,
                blob@.len() >= 28,
                forall|j: int| 0 <= j < i ==> nonce@[j] == blob@[j],
            decreases 12 - i,
        {
            nonce[i] = blob[i];
            i += 1;
        }
        assert(nonce@ =~= blob@.take(12));
        let ct = copy_range(blob, 12, blob.len());
        assert(ct@ =~= blob@.skip(12));
        let aad = record_aad_bytes();
        let opened = aes256gcm_decrypt(&self.key, &nonce, ct.as_slice(), &aad);
        proof {
            assert forall|n: Seq<u8>, t: Seq<char>, c: Seq<char>|
                n.len() == 12 && blob@.len() >= 28 && blob@ == #[trigger] sealed_record(self.key(), n, t, c) implies n
                == nonce@ && ct@ == aes256gcm_seal(
                self.key(),
                nonce@,
                plaintext_bytes(t, c),
                record_aad(),
            ) && record_from_bytes(plaintext_bytes(t, c)) == Some((t, c)) by {
                assert(blob@.take(12) =~= n);
                assert(blob@.skip(12) =~= aes256gcm_seal(self.key(), n, plaintext_bytes(t, c), record_aad()));
                law_plaintext_decodes(t, c);
            }
        }
        match opened {
            Some(p) => match decode_plaintext(p.as_slice()) {
                Some((t, c)) => Ok((t, c)),
                None => Err(DecryptError),
            },
            None => Err(DecryptError),
        }
    }
}

} // verus!
