//! RSA keys of the client and PKCS#1 v1.5 encryption with them. Keys are
//! held as their PKCS#1 DER encoding; every operation is done by the `rsa`
//! crate.

use rand::rngs::OsRng;
use rsa::pkcs1::{DecodeRsaPrivateKey, DecodeRsaPublicKey, EncodeRsaPrivateKey, EncodeRsaPublicKey};
use rsa::traits::PublicKeyParts;
use rsa::{Pkcs1v15Encrypt, RsaPrivateKey, RsaPublicKey};
use vstd::prelude::*;

verus! {

/// The size in bits of the keys that the client generates.
pub const RSA_KEY_BITS: usize = 3072;

/// A private RSA key, as its PKCS#1 DER encoding.
#[derive(Debug, Clone, PartialEq, Eq)]
pub struct PrivateKey {
    pub der: Vec<u8>,
}

/// A public RSA key, as its PKCS#1 DER encoding.
#[derive(Debug, Clone, PartialEq, Eq)]
pub struct PublicKey {
    pub der: Vec<u8>,
}

impl View for PrivateKey {
    type V = Seq<u8>;

    open spec fn view(&self) -> Seq<u8> {
        self.der@
    }
}

impl View for PublicKey {
    type V = Seq<u8>;

    open spec fn view(&self) -> Seq<u8> {
        self.der@
    }
}

/// Why an RSA operation failed.
#[derive(Debug, Clone, Copy, PartialEq, Eq)]
pub enum CryptoError {
    /// No key pair could be generated.
    KeyGeneration,
    /// The message could not be encrypted (the key is invalid, the message
    /// is too long for it, or no random padding could be drawn).
    Encryption,
    /// The ciphertext does not decrypt under the key.
    Decryption,
    /// The text is no PEM-encoded PKCS#1 key that the `rsa` crate accepts.
    PemDecode,
    /// The key could not be written as PEM.
    PemEncode,
}

#[verifier::external_type_specification]
#[verifier::external_body]
pub struct ExRsaError(rsa::Error);

/// The PKCS#1 DER encoding of the public half of the private key whose
/// PKCS#1 DER encoding is given, or `None` where the `rsa` crate refuses
/// the encoding.
pub uninterp spec fn rsa_public_key_of(private_der: Seq<u8>) -> Option<Seq<u8>>;

/// What PKCS#1 v1.5 decryption with the given private key (PKCS#1 DER)
/// gives for a ciphertext, or `None` where the `rsa` crate refuses it.
pub uninterp spec fn rsa_pkcs1v15_decrypt(private_der: Seq<u8>, ciphertext: Seq<u8>) -> Option<
    Seq<u8>,
>;

/// Whether `ciphertext` is one of the PKCS#1 v1.5 encryptions of `message`
/// under the public key (PKCS#1 DER): the RSA encryption of `message`
/// padded with some random non-zero padding.
pub uninterp spec fn is_pkcs1v15_encryption(
    public_der: Seq<u8>,
    message: Seq<u8>,
    ciphertext: Seq<u8>,
) -> bool;

/// The PKCS#1 DER encoding of the private key in a PEM text, or `None`
/// where the `rsa` crate refuses the text.
pub uninterp spec fn rsa_private_der_from_pem(pem: Seq<char>) -> Option<Seq<u8>>;

/// The PEM text (LF line endings) of a private key given as PKCS#1 DER, or
/// `None` where the `rsa` crate refuses the encoding.
pub uninterp spec fn rsa_private_der_to_pem(der: Seq<u8>) -> Option<Seq<char>>;

/// The number of bits of the modulus of the public key whose PKCS#1 DER
/// encoding is given (`RsaPublicKey::from_pkcs1_der`, then `n().bits()`),
/// or `None` where the `rsa` crate refuses the encoding.
pub uninterp spec fn rsa_public_modulus_bits(public_der: Seq<u8>) -> Option<nat>;

/// The size in bytes of a modulus of `bits` bits, which is also the size of
/// every ciphertext under it (`PublicKeyParts::size`).
pub open spec fn modulus_bytes(bits: nat) -> nat {
    ((bits + 7) / 8) as nat
}

/// PKCS#1 v1.5 encryption under the public key succeeds: the key is one
/// that the `rsa` crate accepts, and the message is at most the modulus
/// size less 11 bytes of padding.
pub open spec fn encryptable(public_der: Seq<u8>, message_len: nat) -> bool {
    match rsa_public_modulus_bits(public_der) {
        Some(b) => message_len + 11 <= modulus_bytes(b),
        None => false,
    }
}

/// The ciphertext has the size of the public key's modulus.
pub open spec fn has_modulus_size(public_der: Seq<u8>, ciphertext_len: nat) -> bool {
    match rsa_public_modulus_bits(public_der) {
        Some(b) => ciphertext_len == modulus_bytes(b),
        None => false,
    }
}

/// The PEM text of the private key reads back as the same key.
pub open spec fn pem_reads_back(private_der: Seq<u8>) -> bool {
    match rsa_private_der_to_pem(private_der) {
        Some(pem) => rsa_private_der_from_pem(pem) == Some(private_der),
        None => false,
    }
}

/// What holds of a freshly generated key pair with a modulus of `bits`
/// bits: the second key is the public half of the first, the private key
/// decrypts whatever is encrypted with the public one, the modulus has
/// `bits` bits, and the private key's PEM text reads back as the same key.
pub open spec fn fresh_keypair(private_der: Seq<u8>, public_der: Seq<u8>, bits: nat) -> bool {
    &&& rsa_public_key_of(private_der) == Some(public_der)
    &&& decrypts_encryptions(private_der, public_der)
    &&& rsa_public_modulus_bits(public_der) == Some(bits)
    &&& pem_reads_back(private_der)
}

/// The private key decrypts every PKCS#1 v1.5 encryption made with the
/// public key back to its message.
pub open spec fn decrypts_encryptions(private_der: Seq<u8>, public_der: Seq<u8>) -> bool {
    forall|m: Seq<u8>, c: Seq<u8>| #[trigger]
        is_pkcs1v15_encryption(public_der, m, c) ==> rsa_pkcs1v15_decrypt(private_der, c) == Some(m)
}

/// `RsaPrivateKey::new(&mut OsRng, bits)`, with its public half from
/// `to_public_key`, both encoded by `to_pkcs1_der`. The key is drawn at
/// random, so nothing is stated of its bytes. What is stated is what the
/// crate's source shows of every key it returns:
/// - from 64 up to 4096 bits, generation succeeds (`generate.rs` draws
///   primes until the modulus has exactly `bits` bits and a private
///   exponent exists; `from_components` then accepts the components, and
///   two distinct primes always encode);
/// - the second encoding is the public half of the first;
/// - the modulus has exactly `bits` bits, and up to 4096 bits the public
///   encoding is accepted again (`RsaPublicKey::new` refuses more);
/// - the modulus is the product of two primes with `d * e = 1` modulo each
///   `p - 1`, so the private key decrypts every encryption made with the
///   public half (the primes are probable primes, as the generator draws
///   them);
/// - the PKCS#1 encoding is canonical, so the PEM text of the private key
///   reads back as the same encoding.
#[verifier::external_body]
fn generate_key_ders(bits: usize) -> (r: Result<(Vec<u8>, Vec<u8>), rsa::Error>)
    ensures
        64 <= bits <= 4096 ==> r is Ok,
        r matches Ok((k, p)) ==> rsa_public_key_of(k@) == Some(p@) && decrypts_encryptions(k@, p@)
            && pem_reads_back(k@) && (bits <= 4096 ==> rsa_public_modulus_bits(p@) == Some(
            bits as nat,
        )),
{
    let key = RsaPrivateKey::new(&mut OsRng, bits)?;
    let private_der = key.to_pkcs1_der()?;
    let public_der = key.to_public_key().to_pkcs1_der()?;
    Ok((private_der.as_bytes().to_vec(), public_der.as_bytes().to_vec()))
}

/// `RsaPublicKey::from_pkcs1_der`, then `n().bits()`. Named by
/// `rsa_public_modulus_bits`.
#[verifier::external_body]
fn public_modulus_bits(public_der: &[u8]) -> (r: Result<usize, rsa::Error>)
    ensures
        match r {
            Ok(b) => rsa_public_modulus_bits(public_der@) == Some(b as nat),
            Err(_) => rsa_public_modulus_bits(public_der@) is None,
        },
{
    let key = RsaPublicKey::from_pkcs1_der(public_der)?;
    Ok(key.n().bits())
}

/// `RsaPrivateKey::from_pkcs1_der`, then `to_public_key` and
/// `to_pkcs1_der`: the public half of a private key. Named by
/// `rsa_public_key_of`.
#[verifier::external_body]
fn public_der_of(private_der: &[u8]) -> (r: Result<Vec<u8>, rsa::Error>)
    ensures
        match r {
            Ok(p) => rsa_public_key_of(private_der@) == Some(p@),
            Err(_) => rsa_public_key_of(private_der@) is None,
        },
{
    let key = RsaPrivateKey::from_pkcs1_der(private_der)?;
    let public = key.to_public_key().to_pkcs1_der()?;
    Ok(public.as_bytes().to_vec())
}

/// `RsaPublicKey::from_pkcs1_der`, then `encrypt(&mut OsRng,
/// Pkcs1v15Encrypt, message)`. It fails exactly when the key is refused or
/// the message is longer than the modulus size less 11 bytes
/// (`pkcs1v15_encrypt_pad`); `OsRng` panics rather than fail. The padding
/// is random, so the ciphertext is only stated to be one of the
/// encryptions of the message, of the size of the modulus
/// (`uint_to_be_pad`).
#[verifier::external_body]
fn encrypt_pkcs1v15(public_der: &[u8], message: &[u8]) -> (r: Result<Vec<u8>, rsa::Error>)
    ensures
        r is Ok <==> encryptable(public_der@, message@.len()),
        r matches Ok(c) ==> is_pkcs1v15_encryption(public_der@, message@, c@) && has_modulus_size(
            public_der@,
            c@.len(),
        ),
{
    let key = RsaPublicKey::from_pkcs1_der(public_der)?;
    key.encrypt(&mut OsRng, Pkcs1v15Encrypt, message)
}

/// `RsaPrivateKey::from_pkcs1_der`, then `decrypt(Pkcs1v15Encrypt,
/// ciphertext)` (without blinding, so the result depends on the arguments
/// alone). Named by `rsa_pkcs1v15_decrypt`.
#[verifier::external_body]
fn decrypt_pkcs1v15(private_der: &[u8], ciphertext: &[u8]) -> (r: Result<Vec<u8>, rsa::Error>)
    ensures
        match r {
            Ok(m) => rsa_pkcs1v15_decrypt(private_der@, ciphertext@) == Some(m@),
            Err(_) => rsa_pkcs1v15_decrypt(private_der@, ciphertext@) is None,
        },
{
    let key = RsaPrivateKey::from_pkcs1_der(private_der)?;
    key.decrypt(Pkcs1v15Encrypt, ciphertext)
}

/// `RsaPrivateKey::from_pkcs1_pem`, encoded by `to_pkcs1_der`. Named by
/// `rsa_private_der_from_pem`.
#[verifier::external_body]
fn private_der_from_pem(pem: &str) -> (r: Result<Vec<u8>, rsa::Error>)
    ensures
        match r {
            Ok(der) => rsa_private_der_from_pem(pem@) == Some(der@),
            Err(_) => rsa_private_der_from_pem(pem@) is None,
        },
{
    let key = RsaPrivateKey::from_pkcs1_pem(pem)?;
    let der = key.to_pkcs1_der()?;
    Ok(der.as_bytes().to_vec())
}

/// `RsaPrivateKey::from_pkcs1_der`, then `to_pkcs1_pem(LineEnding::LF)`.
/// Named by `rsa_private_der_to_pem`.
#[verifier::external_body]
fn private_der_to_pem(der: &[u8]) -> (r: Result<String, rsa::Error>)
    ensures
        match r {
            Ok(pem) => rsa_private_der_to_pem(der@) == Some(pem@),
            Err(_) => rsa_private_der_to_pem(der@) is None,
        },
{
    let key = RsaPrivateKey::from_pkcs1_der(der)?;
    let pem = key.to_pkcs1_pem(rsa::pkcs8::LineEnding::LF)?;
    Ok(pem.to_string())
}

/// A fresh key pair whose modulus has `bits` bits: the private key, and
/// its public half. From 64 up to 4096 bits it is always made; the private
/// key decrypts whatever is encrypted with the public key.
pub fn generate_rsa_keypair_with_bits(bits: usize) -> (r: Result<(PrivateKey, PublicKey), CryptoError>)
    ensures
        64 <= bits <= 4096 ==> (r matches Ok((k, p)) && fresh_keypair(k@, p@, bits as nat)),
        r matches Ok((k, p)) ==> rsa_public_key_of(k@) == Some(p@) && decrypts_encryptions(k@, p@)
            && pem_reads_back(k@),
        r matches Err(e) ==> e == CryptoError::KeyGeneration,
{
    match generate_key_ders(bits) {
        Ok((k, p)) => Ok((PrivateKey { der: k }, PublicKey { der: p })),
        Err(_) => Err(CryptoError::KeyGeneration),
    }
}

/// A fresh 3072-bit key pair: the private key, and its public half. The
/// private key decrypts whatever is encrypted with the public key.
pub fn generate_rsa_keypair() -> (r: (PrivateKey, PublicKey))
    ensures
        fresh_keypair(r.0@, r.1@, RSA_KEY_BITS as nat),
{
    match generate_rsa_keypair_with_bits(RSA_KEY_BITS) {
        Ok(pair) => pair,
        Err(_) => {
            assert(false);
            (PrivateKey { der: Vec::new() }, PublicKey { der: Vec::new() })
        },
    }
}

/// Encrypts a message with PKCS#1 v1.5 padding under the public key. The
/// message fits the key: it is at most the modulus size less 11 bytes.
pub fn rsa_encrypt_message(public_key: &PublicKey, message: &[u8]) -> (r: Vec<u8>)
    requires
        encryptable(public_key@, message@.len()),
    ensures
        is_pkcs1v15_encryption(public_key@, message@, r@),
        has_modulus_size(public_key@, r@.len()),
{
    match encrypt_pkcs1v15(public_key.der.as_slice(), message) {
        Ok(c) => c,
        Err(_) => {
            assert(false);
            Vec::new()
        },
    }
}

/// Encrypts a message with PKCS#1 v1.5 padding under the public key, or
/// fails when the key is refused or the message does not fit it.
pub fn try_rsa_encrypt_message(public_key: &PublicKey, message: &[u8]) -> (r: Result<
    Vec<u8>,
    CryptoError,
>)
    ensures
        r is Ok <==> encryptable(public_key@, message@.len()),
        r matches Ok(c) ==> is_pkcs1v15_encryption(public_key@, message@, c@) && has_modulus_size(
            public_key@,
            c@.len(),
        ),
        r matches Err(e) ==> e == CryptoError::Encryption,
{
    let bits = match public_modulus_bits(public_key.der.as_slice()) {
        Ok(b) => b,
        Err(_) => {
            return Err(CryptoError::Encryption);
        },
    };
    let size = bits / 8 + if bits % 8 != 0 {
        1
    } else {
        0
    };
    assert(size == modulus_bytes(bits as nat));
    if size < 11 || message.len() > size - 11 {
        return Err(CryptoError::Encryption);
    }
    Ok(rsa_encrypt_message(public_key, message))
}

/// Decrypts a PKCS#1 v1.5 ciphertext that the private key decrypts.
pub fn rsa_decrypt_message(private_key: &PrivateKey, message: &[u8]) -> (r: Vec<u8>)
    requires
        rsa_pkcs1v15_decrypt(private_key@, message@) is Some,
    ensures
        rsa_pkcs1v15_decrypt(private_key@, message@) == Some(r@),
{
    match decrypt_pkcs1v15(private_key.der.as_slice(), message) {
        Ok(m) => m,
        Err(_) => {
            assert(false);
            Vec::new()
        },
    }
}

/// Decrypts a PKCS#1 v1.5 ciphertext with the private key, or fails when
/// the key is refused or the ciphertext does not decrypt under it.
pub fn try_rsa_decrypt_message(private_key: &PrivateKey, message: &[u8]) -> (r: Result<
    Vec<u8>,
    CryptoError,
>)
    ensures
        match rsa_pkcs1v15_decrypt(private_key@, message@) {
            Some(m) => r matches Ok(v) && v@ == m,
            None => r == Err::<Vec<u8>, CryptoError>(CryptoError::Decryption),
        },
{
    match decrypt_pkcs1v15(private_key.der.as_slice(), message) {
        Ok(_) => Ok(rsa_decrypt_message(private_key, message)),
        Err(_) => Err(CryptoError::Decryption),
    }
}

/// Whatever is encrypted under the public half of a generated key pair
/// decrypts, with the private half, to the message that was encrypted.
pub proof fn lemma_decrypt_inverts_encrypt(
    private_der: Seq<u8>,
    public_der: Seq<u8>,
    message: Seq<u8>,
    ciphertext: Seq<u8>,
)
    requires
        decrypts_encryptions(private_der, public_der),
        is_pkcs1v15_encryption(public_der, message, ciphertext),
    ensures
        rsa_pkcs1v15_decrypt(private_der, ciphertext) == Some(message),
{
}

/// The key pair whose private key a PEM text holds.
pub fn keypair_from_pem(pem: &str) -> (r: Result<(PrivateKey, PublicKey), CryptoError>)
    ensures
        match rsa_private_der_from_pem(pem@) {
            None => r == Err::<(PrivateKey, PublicKey), CryptoError>(CryptoError::PemDecode),
            Some(der) => match rsa_public_key_of(der) {
                None => r == Err::<(PrivateKey, PublicKey), CryptoError>(CryptoError::PemDecode),
                Some(p) => r matches Ok((k, q)) && k@ == der && q@ == p,
            },
        },
{
    let der = match private_der_from_pem(pem) {
        Ok(d) => d,
        Err(_) => {
            return Err(CryptoError::PemDecode);
        },
    };
    let public = match public_der_of(der.as_slice()) {
        Ok(p) => p,
        Err(_) => {
            return Err(CryptoError::PemDecode);
        },
    };
    Ok((PrivateKey { der }, PublicKey { der: public }))
}

/// The PEM text (PKCS#1, LF line endings) in which a private key is stored.
pub fn private_key_to_pem(key: &PrivateKey) -> (r: Result<String, CryptoError>)
    ensures
        match rsa_private_der_to_pem(key@) {
            Some(pem) => r matches Ok(s) && s@ == pem,
            None => r == Err::<String, CryptoError>(CryptoError::PemEncode),
        },
{
    match private_der_to_pem(key.der.as_slice()) {
        Ok(s) => Ok(s),
        Err(_) => Err(CryptoError::PemEncode),
    }
}

/// The PKCS#1 DER encoding of the public key in a PEM text, or `None`
/// where the `rsa` crate refuses the text.
pub uninterp spec fn rsa_public_der_from_pem(pem: Seq<char>) -> Option<Seq<u8>>;

/// The PEM text (LF line endings) of a public key given as PKCS#1 DER, or
/// `None` where the `rsa` crate refuses the encoding.
pub uninterp spec fn rsa_public_der_to_pem(der: Seq<u8>) -> Option<Seq<char>>;

/// `RsaPublicKey::from_pkcs1_pem`, encoded by `to_pkcs1_der`. Named by
/// `rsa_public_der_from_pem`.
#[verifier::external_body]
fn public_der_from_pem(pem: &str) -> (r: Result<Vec<u8>, rsa::Error>)
    ensures
        match r {
            Ok(der) => rsa_public_der_from_pem(pem@) == Some(der@),
            Err(_) => rsa_public_der_from_pem(pem@) is None,
        },
{
    let key = RsaPublicKey::from_pkcs1_pem(pem)?;
    let der = key.to_pkcs1_der()?;
    Ok(der.as_bytes().to_vec())
}

/// `RsaPublicKey::from_pkcs1_der`, then `to_pkcs1_pem(LineEnding::LF)`.
/// Named by `rsa_public_der_to_pem`.
#[verifier::external_body]
fn public_der_to_pem(der: &[u8]) -> (r: Result<String, rsa::Error>)
    ensures
        match r {
            Ok(pem) => rsa_public_der_to_pem(der@) == Some(pem@),
            Err(_) => rsa_public_der_to_pem(der@) is None,
        },
{
    let key = RsaPublicKey::from_pkcs1_der(der)?;
    let pem = key.to_pkcs1_pem(rsa::pkcs8::LineEnding::LF)?;
    Ok(pem)
}

/// The public key in a PEM text, as a peer sends it.
pub fn public_key_from_pem(pem: &str) -> (r: Result<PublicKey, CryptoError>)
    ensures
        match rsa_public_der_from_pem(pem@) {
            Some(der) => r matches Ok(k) && k@ == der,
            None => r == Err::<PublicKey, CryptoError>(CryptoError::PemDecode),
        },
{
    match public_der_from_pem(pem) {
        Ok(der) => Ok(PublicKey { der }),
        Err(_) => Err(CryptoError::PemDecode),
    }
}

/// The PEM text (PKCS#1, LF line endings) in which a public key is sent.
pub fn public_key_to_pem(key: &PublicKey) -> (r: Result<String, CryptoError>)
    ensures
        match rsa_public_der_to_pem(key@) {
            Some(pem) => r matches Ok(s) && s@ == pem,
            None => r == Err::<String, CryptoError>(CryptoError::PemEncode),
        },
{
    match public_der_to_pem(key.der.as_slice()) {
        Ok(s) => Ok(s),
        Err(_) => Err(CryptoError::PemEncode),
    }
}

/// Where the key pair in use comes from.
pub enum KeyPairSource {
    /// The stored private key, and its public half.
    Loaded(PrivateKey, PublicKey),
    /// A fresh key pair, whose private key is to be stored.
    Generated(PrivateKey, PublicKey),
}

/// The stored text holds a private key that the `rsa` crate accepts.
pub open spec fn stored_key_usable(stored_pem: Option<&str>) -> bool {
    match stored_pem {
        Some(pem) => match rsa_private_der_from_pem(pem@) {
            Some(der) => rsa_public_key_of(der) is Some,
            None => false,
        },
        None => false,
    }
}

/// The key pair of the client, from the text of the stored private key
/// file, or `None` when it could not be read: the stored key when the text
/// holds a usable one, else a freshly generated 3072-bit pair.
pub fn get_rsa_keypair(stored_pem: Option<&str>) -> (r: KeyPairSource)
    ensures
        stored_key_usable(stored_pem) ==> (match (r, stored_pem) {
            (KeyPairSource::Loaded(k, p), Some(pem)) => rsa_private_der_from_pem(pem@) == Some(k@)
                && rsa_public_key_of(k@) == Some(p@),
            _ => false,
        }),
        !stored_key_usable(stored_pem) ==> (match r {
            KeyPairSource::Generated(k, p) => fresh_keypair(k@, p@, RSA_KEY_BITS as nat),
            KeyPairSource::Loaded(_, _) => false,
        }),
{
    if let Some(pem) = stored_pem {
        match keypair_from_pem(pem) {
            Ok((k, p)) => {
                return KeyPairSource::Loaded(k, p);
            },
            Err(_) => {},
        }
    }
    let (k, p) = generate_rsa_keypair();
    KeyPairSource::Generated(k, p)
}

/// The PEM text written for a freshly generated key is a usable stored key
/// that reads back as that key and its public half, so the next
/// `get_rsa_keypair` on that text loads the same pair.
pub proof fn lemma_stored_key_reads_back(
    private_der: Seq<u8>,
    public_der: Seq<u8>,
    bits: nat,
    pem: &str,
)
    requires
        fresh_keypair(private_der, public_der, bits),
        rsa_private_der_to_pem(private_der) == Some(pem@),
    ensures
        stored_key_usable(Some(pem)),
        rsa_private_der_from_pem(pem@) == Some(private_der),
        rsa_public_key_of(private_der) == Some(public_der),
{
}

} // verus!
