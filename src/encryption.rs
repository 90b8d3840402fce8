use vstd::prelude::*;
use vstd::utf8::*;
use aes_gcm::aead::{Aead, AeadCore, KeyInit, OsRng};
use aes_gcm::{Aes256Gcm, Key, Nonce};
use base64::Engine;
use rand::Rng;

verus! {

broadcast use {encode_utf8_decode_utf8, encode_utf8_valid_utf8};

/// Length in bytes of the symmetric key.
pub const KEY_LEN: usize = 32;

/// Length in bytes of the nonce that starts every token.
pub const NONCE_LEN: usize = 12;

/// Longest message, in bytes, that AES-GCM seals.
pub const MAX_MESSAGE_LEN: u64 = 68719476736;

/// Sealed bytes (ciphertext and tag) that AES-256-GCM produces.
pub uninterp spec fn aead_seal(key: Seq<u8>, nonce: Seq<u8>, msg: Seq<u8>) -> Seq<u8>;

/// Message that AES-256-GCM recovers from sealed bytes, if they authenticate.
pub uninterp spec fn aead_open(key: Seq<u8>, nonce: Seq<u8>, sealed: Seq<u8>) -> Option<Seq<u8>>;

/// Standard (padded) base64 text of some bytes.
pub uninterp spec fn base64_text(bytes: Seq<u8>) -> Seq<char>;

/// Bytes that standard (padded) base64 decoding gives for a text, if any.
pub uninterp spec fn base64_bytes(text: Seq<char>) -> Option<Seq<u8>>;

#[derive(Debug, Clone, Copy, PartialEq, Eq, Structural)]
pub enum CryptoError {
    /// The key is not exactly `KEY_LEN` bytes long.
    InvalidKeyLength,
    /// The cipher refused to seal the message.
    EncryptionFailed,
    /// The token is malformed, too short, fails authentication, or does not
    /// hold UTF-8 text.
    DecryptionFailed,
}

/// Relies on `Aes256Gcm::encrypt` (aes-gcm, through the `Aead` trait): it
/// fails only on a message longer than `P_MAX` (2^36 bytes); otherwise the
/// output is the sealed message, which decryption under the same key and
/// nonce gives back.
#[verifier::external_body]
fn seal(key: &[u8], nonce: &[u8], msg: &[u8]) -> (r: Option<Vec<u8>>)
    requires
        key@.len() == KEY_LEN,
        nonce@.len() == NONCE_LEN,
    ensures
        r is Some <==> msg@.len() <= MAX_MESSAGE_LEN,
        r matches Some(c) ==> c@ == aead_seal(key@, nonce@, msg@) && aead_open(key@, nonce@, c@)
            == Some(msg@),
{
    let cipher = Aes256Gcm::new(Key::<Aes256Gcm>::from_slice(key));
    cipher.encrypt(Nonce::from_slice(nonce), msg).ok()
}

/// Relies on `Aes256Gcm::decrypt` (aes-gcm, through the `Aead` trait): the
/// message when the sealed bytes authenticate, an error otherwise.
#[verifier::external_body]
fn unseal(key: &[u8], nonce: &[u8], sealed: &[u8]) -> (r: Option<Vec<u8>>)
    requires
        key@.len() == KEY_LEN,
        nonce@.len() == NONCE_LEN,
    ensures
        match r {
            Some(m) => aead_open(key@, nonce@, sealed@) == Some(m@),
            None => aead_open(key@, nonce@, sealed@) is None,
        },
{
    let cipher = Aes256Gcm::new(Key::<Aes256Gcm>::from_slice(key));
    cipher.decrypt(Nonce::from_slice(nonce), sealed).ok()
}

/// Relies on `Aes256Gcm::generate_nonce` with the operating system's random
/// source: a nonce of `NONCE_LEN` bytes.
#[verifier::external_body]
fn fresh_nonce() -> (r: Vec<u8>)
    ensures
        r@.len() == NONCE_LEN,
{
    Aes256Gcm::generate_nonce(&mut OsRng).to_vec()
}

/// Relies on base64's `STANDARD.encode`: the padded base64 text, which
/// `STANDARD.decode` turns back into the same bytes.
#[verifier::external_body]
pub(crate) fn to_base64(bytes: &[u8]) -> (r: String)
    ensures
        r@ == base64_text(bytes@),
        base64_bytes(r@) == Some(bytes@),
{
    base64::engine::general_purpose::STANDARD.encode(bytes)
}

/// Relies on base64's `STANDARD.decode`: the decoded bytes, or an error for
/// text that is not valid padded base64.
#[verifier::external_body]
fn from_base64(text: &str) -> (r: Option<Vec<u8>>)
    ensures
        match r {
            Some(b) => base64_bytes(text@) == Some(b@),
            None => base64_bytes(text@) is None,
        },
{
    base64::engine::general_purpose::STANDARD.decode(text).ok()
}

/// Relies on `String::from_utf8`: succeeds exactly on valid UTF-8, and the
/// text then has those bytes.
#[verifier::external_body]
pub(crate) fn text_from_utf8(bytes: Vec<u8>) -> (r: Option<String>)
    ensures
        r is Some <==> valid_utf8(bytes@),
        r matches Some(s) ==> s@ == decode_utf8(bytes@),
{
    String::from_utf8(bytes).ok()
}

/// Relies on `Rng::fill` of rand's thread-local generator: overwrites every
/// byte, keeping the length.
#[verifier::external_body]
fn fill_random(buf: &mut Vec<u8>)
    ensures
        final(buf)@.len() == old(buf)@.len(),
{
    rand::thread_rng().fill(&mut buf[..])
}

/// The message bytes that a token holds under a key: the token is base64 of
/// `nonce || sealed`, with a nonce of `NONCE_LEN` bytes.
pub open spec fn open_token(key: Seq<u8>, token: Seq<char>) -> Option<Seq<u8>> {
    match base64_bytes(token) {
        Some(d) => if d.len() >= NONCE_LEN {
            aead_open(key, d.subrange(0, NONCE_LEN as int), d.subrange(NONCE_LEN as int, d.len() as int))
        } else {
            None
        },
        None => None,
    }
}

/// The token, under the key, holds exactly the UTF-8 encoding of `plain`.
pub open spec fn decrypts_to(key: Seq<u8>, token: Seq<char>, plain: Seq<char>) -> bool {
    open_token(key, token) == Some(encode_utf8(plain))
}

/// A token holds at most one text: whatever `encrypt` returned for a
/// plaintext, `decrypt` under the same key gives back that plaintext and no
/// other.
pub proof fn lemma_round_trip(key: Seq<u8>, token: Seq<char>, plain: Seq<char>, other: Seq<char>)
    requires
        decrypts_to(key, token, plain),
        decrypts_to(key, token, other),
    ensures
        other == plain,
{
    assert(decode_utf8(encode_utf8(plain)) == plain);
    assert(decode_utf8(encode_utf8(other)) == other);
}

/// Authenticated encryption of text under one fixed 32-byte key.
pub struct Encryption {
    key: Vec<u8>,
}

impl Encryption {
    /// The key that this value encrypts under.
    pub closed spec fn key_view(&self) -> Seq<u8> {
        self.key@
    }

    pub open spec fn wf(&self) -> bool {
        self.key_view().len() == KEY_LEN
    }

    /// Takes a copy of the key; only a key of exactly `KEY_LEN` bytes is accepted.
    pub fn new(key: &[u8]) -> (r: Result<Self, CryptoError>)
        ensures
            r is Ok <==> key@.len() == KEY_LEN,
            r matches Ok(e) ==> e.wf() && e.key_view() == key@,
            r matches Err(e) ==> e == CryptoError::InvalidKeyLength,
    {
        if key.len() != KEY_LEN {
            return Err(CryptoError::InvalidKeyLength);
        }
        let mut k: Vec<u8> = Vec::new();
        let mut i: usize = 0;
        while i < key.len()
            invariant
                i <= key@.len(),
                k@ == key@.subrange(0, i as int),
            decreases key@.len() - i,
        {
            k.push(key[i]);
            i += 1;
        }
        assert(k@ == key@);
        Ok(Encryption { key: k })
    }

    /// Encrypts text under a fresh random nonce. The token is base64 of the
    /// nonce followed by the sealed bytes, and decrypts to the plaintext. Only
    /// a text of more than `MAX_MESSAGE_LEN` bytes is refused.
    pub fn encrypt(&self, plaintext: &str) -> (r: Result<String, CryptoError>)
        requires
            self.wf(),
        ensures
            r is Ok <==> encode_utf8(plaintext@).len() <= MAX_MESSAGE_LEN,
            r matches Ok(t) ==> decrypts_to(self.key_view(), t@, plaintext@),
            r matches Ok(t) ==> exists|n: Seq<u8>|
                n.len() == NONCE_LEN && t@ == #[trigger] base64_text(
                    n + aead_seal(self.key_view(), n, encode_utf8(plaintext@)),
                ),
            r matches Err(e) ==> e == CryptoError::EncryptionFailed,
    {
        let nonce = fresh_nonce();
        let msg = plaintext.as_bytes();
        let sealed = match seal(self.key.as_slice(), nonce.as_slice(), msg) {
            Some(c) => c,
            None => return Err(CryptoError::EncryptionFailed),
        };
        let ghost n = nonce@;
        let mut data = nonce;
        let mut i: usize = 0;
        while i < sealed.len()
            invariant
                i <= sealed@.len(),
                n.len() == NONCE_LEN,
                data@ == n + sealed@.subrange(0, i as int),
            decreases sealed@.len() - i,
        {
            data.push(sealed[i]);
            i += 1;
        }
        assert(sealed@.subrange(0, sealed@.len() as int) == sealed@);
        let token = to_base64(data.as_slice());
        assert(data@.subrange(0, NONCE_LEN as int) == n);
        assert(data@.subrange(NONCE_LEN as int, data@.len() as int) == sealed@);
        Ok(token)
    }

    /// Decrypts a token made by `encrypt` under the same key. Fails, returning
    /// nothing of the content, when the token is not base64, is shorter than a
    /// nonce, does not authenticate, or does not hold UTF-8 text.
    pub fn decrypt(&self, token: &str) -> (r: Result<String, CryptoError>)
        requires
            self.wf(),
        ensures
            r is Ok <==> (open_token(self.key_view(), token@) matches Some(m) && valid_utf8(m)),
            r matches Ok(s) ==> decrypts_to(self.key_view(), token@, s@),
            forall|p: Seq<char>| #[trigger]
                decrypts_to(self.key_view(), token@, p) ==> (r matches Ok(s) && s@ == p),
            r matches Err(e) ==> e == CryptoError::DecryptionFailed,
    {
        let data = match from_base64(token) {
            Some(d) => d,
            None => return Err(CryptoError::DecryptionFailed),
        };
        if data.len() < NONCE_LEN {
            return Err(CryptoError::DecryptionFailed);
        }
        let (nonce, sealed) = data.as_slice().split_at(NONCE_LEN);
        let msg = match unseal(self.key.as_slice(), nonce, sealed) {
            Some(m) => m,
            None => return Err(CryptoError::DecryptionFailed),
        };
        let ghost m = msg@;
        match text_from_utf8(msg) {
            Some(s) => {
                proof {
                    decode_utf8_encode_utf8(m);
                    assert forall|p: Seq<char>| #[trigger]
                        decrypts_to(self.key_view(), token@, p) implies s@ == p by {
                        lemma_round_trip(self.key_view(), token@, p, s@);
                    }
                }
                Ok(s)
            },
            None => Err(CryptoError::DecryptionFailed),
        }
    }

    /// A fresh random key of `KEY_LEN` bytes.
    pub fn generate_key() -> (r: Vec<u8>)
        ensures
            r@.len() == KEY_LEN,
    {
        let mut key: Vec<u8> = vec![0u8; KEY_LEN];
        fill_random(&mut key);
        key
    }
}

} // verus!
