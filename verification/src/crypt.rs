//! The header cipher of the realm connection: RC4, keyed with an HMAC-SHA1
//! of the session secret, with the first 1024 keystream bytes dropped. Each
//! direction has its own seed.
use vstd::prelude::*;
use crate::rc4::{Rc4, Rc4State, advance, keystream, ksa, xor_from};
use hmac::Mac;

verus! {

/// Name for what `hmac::Hmac<sha1::Sha1>` computes over `data` with `key`.
pub uninterp spec fn spec_hmac_sha1(key: Seq<u8>, data: Seq<u8>) -> Seq<u8>;

/// HMAC-SHA1 of `data` under `key`, through the `hmac` and `sha1` crates:
/// `Hmac::<Sha1>::new_from_slice(key)`, `update(data)`, `finalize()`.
/// Claimed: the result is the named function of the two arguments, and it
/// holds 20 bytes (SHA-1's output size, `U20` in the `sha1` source).
/// `new_from_slice` of `hmac` 0.12 returns `Ok` for a key of any length.
#[verifier::external_body]
fn hmac_sha1(key: &[u8], data: &[u8]) -> (mac: Vec<u8>)
    ensures
        mac@ == spec_hmac_sha1(key@, data@),
        mac@.len() == 20,
{
    let mut hasher = hmac::Hmac::<sha1::Sha1>::new_from_slice(key).expect("HMAC accepts any key length");
    hasher.update(data);
    hasher.finalize().into_bytes().to_vec()
}

/// The seed of the cipher under which the server encrypts its headers.
pub open spec fn server_encryption_seed() -> Seq<u8> {
    seq![0xCCu8, 0x98, 0xAE, 0x04, 0xE8, 0x97, 0xEA, 0xCA, 0x12, 0xDD, 0xC0, 0x93, 0x42, 0x91, 0x53, 0x57]
}

/// The seed of the cipher under which the server decrypts the client's
/// headers.
pub open spec fn server_decryption_seed() -> Seq<u8> {
    seq![0xC2u8, 0xB3, 0x72, 0x3C, 0xC6, 0xAE, 0xD9, 0xB5, 0x34, 0x3C, 0x53, 0xEE, 0x2F, 0x43, 0x67, 0xCE]
}

/// Number of keystream bytes dropped after keying.
pub const DROPPED_KEYSTREAM: usize = 1024;

/// The cipher state keyed by the HMAC of `secret` under `seed`, with the first
/// 1024 keystream bytes dropped.
pub open spec fn header_cipher_state(seed: Seq<u8>, secret: Seq<u8>) -> Rc4State {
    advance(ksa(spec_hmac_sha1(seed, secret)), 1024)
}

fn keyed_cipher(seed: &[u8], secret: &[u8]) -> (c: Rc4)
    ensures
        c@ == header_cipher_state(seed@, secret@),
{
    let key = hmac_sha1(seed, secret);
    let mut cipher = Rc4::new(key.as_slice());
    cipher.skip(DROPPED_KEYSTREAM);
    cipher
}

/// Decrypts the headers of the packets that the server sends.
pub struct Decryptor {
    cipher: Rc4,
}

impl View for Decryptor {
    type V = Rc4State;

    closed spec fn view(&self) -> Rc4State {
        self.cipher@
    }
}

impl Decryptor {
    /// The decryptor for the session whose secret is `secret`.
    pub fn new(secret: &[u8]) -> (d: Self)
        ensures
            d@ == header_cipher_state(server_encryption_seed(), secret@),
    {
        let seed: Vec<u8> = vec![0xCCu8, 0x98, 0xAE, 0x04, 0xE8, 0x97, 0xEA, 0xCA, 0x12, 0xDD, 0xC0, 0x93, 0x42, 0x91, 0x53, 0x57];
        assert(seed@ =~= server_encryption_seed());
        Decryptor { cipher: keyed_cipher(seed.as_slice(), secret) }
    }

    /// Decrypts `data[start..end]` in place, with the next keystream bytes.
    pub fn decrypt(&mut self, data: &mut [u8], start: usize, end: usize)
        requires
            start <= end <= old(data)@.len(),
        ensures
            final(data)@ == xor_from(old(data)@, start as int, keystream(old(self)@, (end - start) as nat)),
            final(self)@ == advance(old(self)@, (end - start) as nat),
    {
        self.cipher.apply(data, start, end);
    }
}

/// Encrypts the headers of the packets that the client sends.
pub struct Encryptor {
    cipher: Rc4,
}

impl View for Encryptor {
    type V = Rc4State;

    closed spec fn view(&self) -> Rc4State {
        self.cipher@
    }
}

impl Encryptor {
    /// The encryptor for the session whose secret is `secret`.
    pub fn new(secret: &[u8]) -> (e: Self)
        ensures
            e@ == header_cipher_state(server_decryption_seed(), secret@),
    {
        let seed: Vec<u8> = vec![0xC2u8, 0xB3, 0x72, 0x3C, 0xC6, 0xAE, 0xD9, 0xB5, 0x34, 0x3C, 0x53, 0xEE, 0x2F, 0x43, 0x67, 0xCE];
        assert(seed@ =~= server_decryption_seed());
        Encryptor { cipher: keyed_cipher(seed.as_slice(), secret) }
    }

    /// Encrypts `data[start..end]` in place, with the next keystream bytes.
    pub fn encrypt(&mut self, data: &mut [u8], start: usize, end: usize)
        requires
            start <= end <= old(data)@.len(),
        ensures
            final(data)@ == xor_from(old(data)@, start as int, keystream(old(self)@, (end - start) as nat)),
            final(self)@ == advance(old(self)@, (end - start) as nat),
    {
        self.cipher.apply(data, start, end);
    }
}

} // verus!
