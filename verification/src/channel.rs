//! The RSA (PKCS#1 v1.5) channel between the lpm client and server: key pairs,
//! their DER exchange, and the encryption of every message sent. Keys are held
//! as their DER encodings (PKCS#8 for a private key, SPKI for a public key).
use vstd::prelude::*;
use vstd::utf8::encode_utf8;
use rsa::pkcs8::DecodePrivateKey;
use rsa::pkcs8::DecodePublicKey;
use rsa::pkcs8::EncodePrivateKey;
use rsa::pkcs8::EncodePublicKey;
use rsa::RsaPrivateKey;
use rsa::RsaPublicKey;

verus! {

/// A private RSA key, as its PKCS#8 DER encoding.
pub struct PrivateKey {
    pub der: Vec<u8>,
}

/// A public RSA key, as its SPKI DER encoding.
pub struct PublicKey {
    pub der: Vec<u8>,
}

impl View for PrivateKey {
    type V = Seq<u8>;

    open spec fn view(&self) -> Seq<u8> {
        self.der@
    }
}

impl View for PublicKey {
    type V = Seq<u8>;

    open spec fn view(&self) -> Seq<u8> {
        self.der@
    }
}

/// The SPKI DER encoding of the public half of the key that `private_der`
/// encodes (PKCS#8); `None` where it encodes no key.
pub uninterp spec fn rsa_public_key_der(private_der: Seq<u8>) -> Option<Seq<u8>>;

/// What PKCS#1 v1.5 decryption gives for `ciphertext` under the key that
/// `private_der` encodes; `None` where it encodes no key or the ciphertext does
/// not decrypt.
pub uninterp spec fn rsa_pkcs1v15_decrypt(private_der: Seq<u8>, ciphertext: Seq<u8>) -> Option<Seq<u8>>;

/// `public_der` is the SPKI DER encoding of an RSA public key.
pub uninterp spec fn rsa_public_der_parses(public_der: Seq<u8>) -> bool;

/// `private_der` is the PKCS#8 DER encoding of a key that `RsaPrivateKey::new`
/// generated (so its listed primes are primes, which decoding does not check).
pub uninterp spec fn rsa_generated_key(private_der: Seq<u8>) -> bool;

/// The size in bytes of the modulus of the public key that `public_der` encodes.
pub uninterp spec fn rsa_modulus_bytes(public_der: Seq<u8>) -> nat;

/// `ciphertext` decrypts to `message` under every generated private key whose
/// public half is `public_der`.
pub open spec fn opens_to(public_der: Seq<u8>, ciphertext: Seq<u8>, message: Seq<u8>) -> bool {
    forall|p: Seq<u8>|
        rsa_generated_key(p) && rsa_public_key_der(p) == Some(public_der) ==> #[trigger] rsa_pkcs1v15_decrypt(
            p,
            ciphertext,
        ) == Some(message)
}

/// PKCS#1 v1.5 takes messages up to the modulus size less 11 bytes of padding.
pub open spec fn sealable(public_der: Seq<u8>, message: Seq<u8>) -> bool {
    rsa_public_der_parses(public_der) && message.len() + 11 <= rsa_modulus_bytes(public_der)
}

/// `rsa::RsaPrivateKey::new` with `rand::thread_rng()`, encoded with
/// `EncodePrivateKey::to_pkcs8_der`: a fresh random key whose modulus has exactly
/// `bits` bits (generation draws primes until it does). Generation fails only
/// below 64 bits, where there may be too few primes; two-prime keys always
/// validate and encode. What key comes out is chance.
#[verifier::external_body]
fn generate_private_key(bits: usize) -> (res: Option<Vec<u8>>)
    ensures
        bits >= 64 ==> res is Some,
        res is Some ==> rsa_generated_key(res.unwrap()@),
        res is Some ==> rsa_public_key_der(res.unwrap()@) is Some && rsa_modulus_bytes(
            rsa_public_key_der(res.unwrap()@).unwrap(),
        ) == (bits + 7) / 8,
{
    let key = RsaPrivateKey::new(&mut rand::thread_rng(), bits).ok()?;
    let der = key.to_pkcs8_der().ok()?;
    Some(der.as_bytes().to_vec())
}

/// `rsa::RsaPublicKey::from` on the key decoded with
/// `DecodePrivateKey::from_pkcs8_der`, encoded with
/// `EncodePublicKey::to_public_key_der`; a generated key always decodes and
/// encodes.
#[verifier::external_body]
fn public_half(private_der: &[u8]) -> (res: Option<Vec<u8>>)
    ensures
        match res {
            Some(d) => rsa_public_key_der(private_der@) == Some(d@),
            None => rsa_public_key_der(private_der@) is None,
        },
        rsa_generated_key(private_der@) ==> res is Some,
{
    let key = RsaPrivateKey::from_pkcs8_der(private_der).ok()?;
    let der = RsaPublicKey::from(&key).to_public_key_der().ok()?;
    Some(der.as_bytes().to_vec())
}

/// `DecodePublicKey::from_public_key_der`: whether the bytes decode to a key.
#[verifier::external_body]
fn public_key_parses(der: &[u8]) -> (res: bool)
    ensures
        res == rsa_public_der_parses(der@),
{
    RsaPublicKey::from_public_key_der(der).is_ok()
}

/// `rsa::RsaPublicKey::encrypt` with `Pkcs1v15Encrypt` and `rand::thread_rng()`,
/// on the key decoded with `DecodePublicKey::from_public_key_der`. It fails
/// exactly where the bytes decode to no key or the message is longer than the
/// modulus less 11 bytes; the padding is random, and the holder of a matching
/// private key made by `RsaPrivateKey::new` decrypts the result back to the
/// message (a key decoded from other bytes may list a composite "prime", which
/// decoding accepts and which decrypts nothing).
#[verifier::external_body]
fn rsa_encrypt(public_der: &[u8], message: &[u8]) -> (res: Option<Vec<u8>>)
    ensures
        res is Some <==> (rsa_public_der_parses(public_der@) && message@.len() + 11 <= rsa_modulus_bytes(
            public_der@,
        )),
        res is Some ==> opens_to(public_der@, res.unwrap()@, message@),
{
    let key = RsaPublicKey::from_public_key_der(public_der).ok()?;
    key.encrypt(&mut rand::thread_rng(), rsa::Pkcs1v15Encrypt, message).ok()
}

/// `rsa::RsaPrivateKey::decrypt` with `Pkcs1v15Encrypt` (no blinding, so
/// deterministic), on the key decoded with `DecodePrivateKey::from_pkcs8_der`.
#[verifier::external_body]
fn rsa_decrypt(private_der: &[u8], ciphertext: &[u8]) -> (res: Option<Vec<u8>>)
    ensures
        match res {
            Some(m) => rsa_pkcs1v15_decrypt(private_der@, ciphertext@) == Some(m@),
            None => rsa_pkcs1v15_decrypt(private_der@, ciphertext@) is None,
        },
{
    let key = RsaPrivateKey::from_pkcs8_der(private_der).ok()?;
    key.decrypt(rsa::Pkcs1v15Encrypt, ciphertext).ok()
}

/// The bytes of `ACK`, the acknowledgement the client sends after each reply.
pub open spec fn ack_bytes() -> Seq<u8> {
    seq![65u8, 67u8, 75u8]
}

/// One side's key pair: a fresh private key of `bits` bits and its public half.
pub fn new_key_pair(bits: usize) -> (res: Option<(PrivateKey, PublicKey)>)
    ensures
        bits >= 64 ==> res is Some,
        res is Some ==> rsa_generated_key(res.unwrap().0@),
        res is Some ==> rsa_public_key_der(res.unwrap().0@) == Some(res.unwrap().1@),
        res is Some ==> rsa_modulus_bytes(res.unwrap().1@) == (bits + 7) / 8,
{
    match generate_private_key(bits) {
        Some(private_der) => match public_half(private_der.as_slice()) {
            Some(public_der) => Some((PrivateKey { der: private_der }, PublicKey { der: public_der })),
            None => None,
        },
        None => None,
    }
}

/// The DER bytes that announce a public key to the other side.
pub fn announce(key: &PublicKey) -> (res: Vec<u8>)
    ensures
        res@ == key@,
{
    key.der.clone()
}

/// The other side's public key from the DER bytes it announced; `None` where
/// they encode no key.
pub fn peer_key(der: &[u8]) -> (res: Option<PublicKey>)
    ensures
        res is Some <==> rsa_public_der_parses(der@),
        res is Some ==> res.unwrap()@ == der@,
{
    if public_key_parses(der) {
        Some(PublicKey { der: vstd::slice::slice_to_vec(der) })
    } else {
        None
    }
}

/// A text message (a request, the master password) encrypted for the holder of
/// `key`: its UTF-8 bytes, which the matching private key decrypts back.
pub fn seal_text(key: &PublicKey, text: &str) -> (res: Option<Vec<u8>>)
    ensures
        res is Some <==> sealable(key@, encode_utf8(text@)),
        res is Some ==> opens_to(key@, res.unwrap()@, encode_utf8(text@)),
{
    rsa_encrypt(key.der.as_slice(), text.as_bytes())
}

/// Raw bytes encrypted for the holder of `key`.
pub fn seal_bytes(key: &PublicKey, message: &[u8]) -> (res: Option<Vec<u8>>)
    ensures
        res is Some <==> sealable(key@, message@),
        res is Some ==> opens_to(key@, res.unwrap()@, message@),
{
    rsa_encrypt(key.der.as_slice(), message)
}

/// The acknowledgement `ACK`, encrypted for the server.
pub fn ack(key: &PublicKey) -> (res: Option<Vec<u8>>)
    ensures
        res is Some <==> sealable(key@, ack_bytes()),
        res is Some ==> opens_to(key@, res.unwrap()@, ack_bytes()),
{
    let ack_message: [u8; 3] = [65, 67, 75];
    assert(ack_message@ =~= ack_bytes());
    rsa_encrypt(key.der.as_slice(), ack_message.as_slice())
}

/// A message received from the other side, decrypted with this side's key.
pub fn open_message(key: &PrivateKey, ciphertext: &[u8]) -> (res: Option<Vec<u8>>)
    ensures
        match res {
            Some(m) => rsa_pkcs1v15_decrypt(key@, ciphertext@) == Some(m@),
            None => rsa_pkcs1v15_decrypt(key@, ciphertext@) is None,
        },
{
    rsa_decrypt(key.der.as_slice(), ciphertext)
}

/// What one side seals for a key pair from `new_key_pair`, the private half
/// opens: a message sealed with `seal_text`, `seal_bytes` or `ack` for `public`
/// comes back from `open_message` with `private`.
pub proof fn law_sealed_message_opens(private: Seq<u8>, public: Seq<u8>, ciphertext: Seq<u8>, message: Seq<u8>)
    requires
        rsa_generated_key(private),
        rsa_public_key_der(private) == Some(public),
        opens_to(public, ciphertext, message),
    ensures
        rsa_pkcs1v15_decrypt(private, ciphertext) == Some(message),
{
    assert(rsa_pkcs1v15_decrypt(private, ciphertext) == Some(message));
}

} // verus!
