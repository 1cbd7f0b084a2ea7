//! Encryption of a connection: the RSA exchange of the shared secret at
//! login, and the AES-128 CFB-8 stream cipher that both directions use
//! from then on, keyed by that secret, which is also the initial vector.

use vstd::prelude::*;
use vstd::slice::slice_to_vec;
use cipher::{AsyncStreamCipher, KeyIvInit};
use rand::RngCore;
use rsa::pkcs8::DecodePrivateKey;
use crate::protocol::packets::login::EncryptionRequest;

verus! {

/// What PKCS#1 v1.5 decryption with the RSA private key whose PKCS#8 DER
/// encoding is `key_der` recovers from `data`; `None` where the key does
/// not parse or the decryption fails.
pub uninterp spec fn pkcs1v15_decrypted(key_der: Seq<u8>, data: Seq<u8>) -> Option<Seq<u8>>;

/// The AES-128 CFB-8 ciphertext of `data` under `key`, starting from the
/// initial vector `iv`.
pub uninterp spec fn aes128_cfb8_encrypted(key: Seq<u8>, iv: Seq<u8>, data: Seq<u8>) -> Seq<u8>;

/// The AES-128 CFB-8 plaintext of `data` under `key`, starting from the
/// initial vector `iv`.
pub uninterp spec fn aes128_cfb8_decrypted(key: Seq<u8>, iv: Seq<u8>, data: Seq<u8>) -> Seq<u8>;

/// The CFB-8 shift register after `ciphertext` has passed through it: the
/// last 16 bytes of the register followed by the ciphertext.
pub open spec fn next_iv(iv: Seq<u8>, ciphertext: Seq<u8>) -> Seq<u8> {
    let s = iv + ciphertext;
    s.subrange(s.len() - 16, s.len() as int)
}

/// `RsaPrivateKey::from_pkcs8_der` and `RsaPrivateKey::decrypt` with
/// `Pkcs1v15Encrypt` (rsa): the PKCS#1 v1.5 plaintext of `data` under the
/// key, or `None` where either call returns an error. The decryption takes
/// no random input, so the result is a function of the two byte strings.
#[verifier::external_body]
pub fn decrypt_rsa(key_der: &[u8], data: &[u8]) -> (r: Option<Vec<u8>>)
    ensures
        r matches Some(m) ==> pkcs1v15_decrypted(key_der@, data@) == Some(m@),
        r is None ==> pkcs1v15_decrypted(key_der@, data@) is None,
{
    let key = rsa::RsaPrivateKey::from_pkcs8_der(key_der).ok()?;
    key.decrypt(rsa::Pkcs1v15Encrypt, data).ok()
}

/// `OsRng::fill_bytes` (rand) on four bytes: a fresh random verify token.
/// Only its length is promised; its bytes come from the operating system.
#[verifier::external_body]
pub fn generate_verify_token() -> (r: Vec<u8>)
    ensures
        r@.len() == 4,
{
    let mut token = vec![0u8; 4];
    rand::rngs::OsRng.fill_bytes(&mut token);
    token
}

/// `Encryptor::<Aes128>::new_from_slices` and `AsyncStreamCipher::encrypt`
/// (cfb8, cipher): the CFB-8 ciphertext of `data`, one byte out for each
/// byte in.
#[verifier::external_body]
fn cfb8_encrypt(key: &[u8], iv: &[u8], data: &[u8]) -> (r: Vec<u8>)
    requires
        key@.len() == 16,
        iv@.len() == 16,
    ensures
        r@ == aes128_cfb8_encrypted(key@, iv@, data@),
        r@.len() == data@.len(),
{
    let mut buf = data.to_vec();
    if let Ok(c) = cfb8::Encryptor::<aes::Aes128>::new_from_slices(key, iv) {
        c.encrypt(&mut buf);
    }
    buf
}

/// `Decryptor::<Aes128>::new_from_slices` and `AsyncStreamCipher::decrypt`
/// (cfb8, cipher): the CFB-8 plaintext of `data`, one byte out for each
/// byte in. Under one key and initial vector, decryption gives back the
/// plaintext of which `data` is the ciphertext.
#[verifier::external_body]
fn cfb8_decrypt(key: &[u8], iv: &[u8], data: &[u8]) -> (r: Vec<u8>)
    requires
        key@.len() == 16,
        iv@.len() == 16,
    ensures
        r@ == aes128_cfb8_decrypted(key@, iv@, data@),
        r@.len() == data@.len(),
        forall|p: Seq<u8>| #[trigger] aes128_cfb8_encrypted(key@, iv@, p) == data@ ==> r@ == p,
{
    let mut buf = data.to_vec();
    if let Ok(c) = cfb8::Decryptor::<aes::Aes128>::new_from_slices(key, iv) {
        c.decrypt(&mut buf);
    }
    buf
}

/// The shift register after `out` has passed through `iv`.
fn shift_register(iv: &Vec<u8>, out: &Vec<u8>) -> (r: Vec<u8>)
    requires
        iv@.len() == 16,
    ensures
        r@ == next_iv(iv@, out@),
{
    let n = out.len();
    let mut r: Vec<u8> = Vec::new();
    let ghost s = iv@ + out@;
    for i in 0..16usize
        invariant
            n == out@.len(),
            iv@.len() == 16,
            s == iv@ + out@,
            r@.len() == i,
            forall|j: int| 0 <= j < i ==> r@[j] == s[s.len() - 16 + j],
    {
        if n >= 16 {
            r.push(out[n - 16 + i]);
        } else if i + n < 16 {
            r.push(iv[i + n]);
        } else {
            r.push(out[i + n - 16]);
        }
    }
    assert(r@ =~= next_iv(iv@, out@));
    r
}

/// The cipher state of a connection: the shared key and the shift
/// register of each direction.
pub struct Encryption {
    key: Vec<u8>,
    enc_iv: Vec<u8>,
    dec_iv: Vec<u8>,
}

impl Encryption {
    /// The shared key.
    pub closed spec fn key_bytes(&self) -> Seq<u8> {
        self.key@
    }

    /// The shift register of the outgoing direction.
    pub closed spec fn encrypt_iv(&self) -> Seq<u8> {
        self.enc_iv@
    }

    /// The shift register of the incoming direction.
    pub closed spec fn decrypt_iv(&self) -> Seq<u8> {
        self.dec_iv@
    }

    /// The key and both registers are 16 bytes.
    pub open spec fn well_formed(&self) -> bool {
        &&& self.key_bytes().len() == 16
        &&& self.encrypt_iv().len() == 16
        &&& self.decrypt_iv().len() == 16
    }

    /// Both directions keyed by `key`, which is also their initial vector.
    pub fn new(key: &[u8]) -> (r: Self)
        requires
            key@.len() == 16,
        ensures
            r.well_formed(),
            r.key_bytes() == key@,
            r.encrypt_iv() == key@,
            r.decrypt_iv() == key@,
    {
        Encryption { key: slice_to_vec(key), enc_iv: slice_to_vec(key), dec_iv: slice_to_vec(key) }
    }

    /// Encrypts `data` in place as the next bytes of the outgoing stream.
    pub fn encrypt(&mut self, data: &mut Vec<u8>)
        requires
            old(self).well_formed(),
        ensures
            final(self).well_formed(),
            final(self).key_bytes() == old(self).key_bytes(),
            final(self).decrypt_iv() == old(self).decrypt_iv(),
            final(data)@ == aes128_cfb8_encrypted(
                old(self).key_bytes(),
                old(self).encrypt_iv(),
                old(data)@,
            ),
            final(self).encrypt_iv() == next_iv(old(self).encrypt_iv(), final(data)@),
    {
        let out = cfb8_encrypt(self.key.as_slice(), self.enc_iv.as_slice(), data.as_slice());
        self.enc_iv = shift_register(&self.enc_iv, &out);
        *data = out;
    }

    /// Decrypts `data` in place as the next bytes of the incoming stream.
    /// Where `data` is what an encryption under the same key and register
    /// gave, the plaintext comes back.
    pub fn decrypt(&mut self, data: &mut Vec<u8>)
        requires
            old(self).well_formed(),
        ensures
            final(self).well_formed(),
            final(self).key_bytes() == old(self).key_bytes(),
            final(self).encrypt_iv() == old(self).encrypt_iv(),
            final(data)@ == aes128_cfb8_decrypted(
                old(self).key_bytes(),
                old(self).decrypt_iv(),
                old(data)@,
            ),
            final(self).decrypt_iv() == next_iv(old(self).decrypt_iv(), old(data)@),
            forall|p: Seq<u8>|
                #[trigger] aes128_cfb8_encrypted(old(self).key_bytes(), old(self).decrypt_iv(), p)
                    == old(data)@ ==> final(data)@ == p,
    {
        let out = cfb8_decrypt(self.key.as_slice(), self.dec_iv.as_slice(), data.as_slice());
        self.dec_iv = shift_register(&self.dec_iv, data);
        *data = out;
    }
}

/// The shared secret that a login may go on with, from the decrypted
/// secret and token of an encryption response and the token that was sent:
/// both decrypted, the token the one sent, and the secret an AES-128 key.
pub open spec fn accepted_secret(
    secret: Option<Seq<u8>>,
    token: Option<Seq<u8>>,
    sent: Seq<u8>,
) -> Option<Seq<u8>> {
    match (secret, token) {
        (Some(s), Some(t)) => if t == sent && s.len() == 16 {
            Some(s)
        } else {
            None
        },
        _ => None,
    }
}

/// The bytes held, where some are.
pub open spec fn bytes_of(o: Option<Vec<u8>>) -> Option<Seq<u8>> {
    match o {
        Some(v) => Some(v@),
        None => None,
    }
}

/// Whether two byte strings are equal.
fn bytes_equal(a: &[u8], b: &[u8]) -> (r: bool)
    ensures
        r == (a@ == b@),
{
    if a.len() != b.len() {
        return false;
    }
    let mut i: usize = 0;
    while i < a.len()
        invariant
            a@.len() == b@.len(),
            i <= a@.len(),
            forall|j: int| 0 <= j < i ==> a@[j] == b@[j],
        decreases a@.len() - i,
    {
        if a[i] != b[i] {
            return false;
        }
        i = i + 1;
    }
    assert(a@ =~= b@);
    true
}

/// Decides an encryption response from its decrypted parts: the secret to
/// encrypt the connection with, or `None`, on which the client is refused
/// with "Encryption Error!".
pub fn accept_encryption_response(
    secret: Option<Vec<u8>>,
    token: Option<Vec<u8>>,
    sent: &[u8],
) -> (r: Option<Vec<u8>>)
    ensures
        r matches Some(s) ==> accepted_secret(bytes_of(secret), bytes_of(token), sent@) == Some(s@),
        r is None ==> accepted_secret(bytes_of(secret), bytes_of(token), sent@) is None,
{
    match (secret, token) {
        (Some(s), Some(t)) => {
            if bytes_equal(t.as_slice(), sent) && s.len() == 16 {
                Some(s)
            } else {
                None
            }
        },
        _ => None,
    }
}

/// Decrypts the shared secret and verify token of an encryption response
/// with the server's private key (PKCS#8 DER) and decides it: the secret
/// to encrypt the connection with, or `None` for "Encryption Error!".
pub fn check_encryption_response(
    key_der: &[u8],
    shared_secret: &[u8],
    verify_token: &[u8],
    sent: &[u8],
) -> (r: Option<Vec<u8>>)
    ensures
        r matches Some(s) ==> accepted_secret(
            pkcs1v15_decrypted(key_der@, shared_secret@),
            pkcs1v15_decrypted(key_der@, verify_token@),
            sent@,
        ) == Some(s@),
        r is None ==> accepted_secret(
            pkcs1v15_decrypted(key_der@, shared_secret@),
            pkcs1v15_decrypted(key_der@, verify_token@),
            sent@,
        ) is None,
{
    let secret = decrypt_rsa(key_der, shared_secret);
    let token = decrypt_rsa(key_der, verify_token);
    accept_encryption_response(secret, token, sent)
}

/// The encryption request a server sends in online mode: no server id,
/// its public key in DER and a fresh four-byte verify token.
pub fn encryption_request(public_key_der: &[u8]) -> (r: EncryptionRequest)
    ensures
        r.server_id@ == Seq::<char>::empty(),
        r.public_key@ == public_key_der@,
        r.verify_token@.len() == 4,
{
    EncryptionRequest {
        server_id: String::new(),
        public_key: slice_to_vec(public_key_der),
        verify_token: generate_verify_token(),
    }
}

} // verus!
