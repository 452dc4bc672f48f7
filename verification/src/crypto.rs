//! The master key (SHA-256 of the master password) and the passfile format:
//! a 12-byte nonce followed by the AES-256-GCM sealing of the plaintext.
use vstd::prelude::*;
use vstd::utf8::encode_utf8;
use aes_gcm::aead::Aead;
use aes_gcm::KeyInit;
use rand::Rng;
use sha2::Digest;

verus! {

/// The SHA-256 digest of `data`.
pub uninterp spec fn sha256(data: Seq<u8>) -> Seq<u8>;

/// What AES-256-GCM produces for `plaintext` under `key` and `nonce` (no
/// associated data): the ciphertext followed by the 16-byte tag.
pub uninterp spec fn aes256gcm_seal(key: Seq<u8>, nonce: Seq<u8>, plaintext: Seq<u8>) -> Seq<u8>;

/// What AES-256-GCM decryption gives for `ciphertext` (ciphertext followed by
/// tag) under `key` and `nonce`: `None` where the tag does not authenticate.
pub uninterp spec fn aes256gcm_open(key: Seq<u8>, nonce: Seq<u8>, ciphertext: Seq<u8>) -> Option<
    Seq<u8>,
>;

/// The largest plaintext that AES-GCM seals (`aes_gcm::P_MAX`, 2^36 bytes).
pub const P_MAX: u64 = 68719476736;

/// The length of the nonce that starts a passfile.
pub const NONCE_LEN: usize = 12;

/// `sha2::Sha256::digest`: the 32-byte SHA-256 digest of `data`.
#[verifier::external_body]
pub(crate) fn sha256_digest(data: &[u8]) -> (res: Vec<u8>)
    ensures
        res@ == sha256(data@),
        res@.len() == 32,
{
    sha2::Sha256::digest(data).to_vec()
}

/// `Aead::encrypt` of `aes_gcm::Aes256Gcm` with no associated data. It fails
/// exactly when the plaintext is longer than `P_MAX`; otherwise it returns the
/// ciphertext followed by the 16-byte tag, which `Aead::decrypt` under the same
/// key and nonce turns back into the plaintext.
#[verifier::external_body]
fn aes256gcm_encrypt(key: &[u8], nonce: &[u8], plaintext: &[u8]) -> (res: Option<Vec<u8>>)
    requires
        key@.len() == 32,
        nonce@.len() == 12,
    ensures
        res is Some <==> plaintext@.len() <= P_MAX,
        res is Some ==> res.unwrap()@ == aes256gcm_seal(key@, nonce@, plaintext@),
        res is Some ==> res.unwrap()@.len() == plaintext@.len() + 16,
        res is Some ==> aes256gcm_open(key@, nonce@, res.unwrap()@) == Some(plaintext@),
{
    let cipher = aes_gcm::Aes256Gcm::new(aes_gcm::Key::<aes_gcm::Aes256Gcm>::from_slice(key));
    cipher.encrypt(aes_gcm::Nonce::from_slice(nonce), plaintext).ok()
}

/// `Aead::decrypt` of `aes_gcm::Aes256Gcm` with no associated data.
#[verifier::external_body]
fn aes256gcm_decrypt(key: &[u8], nonce: &[u8], ciphertext: &[u8]) -> (res: Option<Vec<u8>>)
    requires
        key@.len() == 32,
        nonce@.len() == 12,
    ensures
        match res {
            Some(p) => aes256gcm_open(key@, nonce@, ciphertext@) == Some(p@),
            None => aes256gcm_open(key@, nonce@, ciphertext@) is None,
        },
{
    let cipher = aes_gcm::Aes256Gcm::new(aes_gcm::Key::<aes_gcm::Aes256Gcm>::from_slice(key));
    cipher.decrypt(aes_gcm::Nonce::from_slice(nonce), ciphertext).ok()
}

/// `rand::thread_rng().gen::<u8>()`: a random byte.
#[verifier::external_body]
fn random_byte() -> (res: u8) {
    rand::thread_rng().gen::<u8>()
}

/// The master key for a master password: the SHA-256 digest of its UTF-8 bytes.
pub open spec fn master_key(password: Seq<char>) -> Seq<u8> {
    sha256(encode_utf8(password))
}

/// A passfile sealed under `key` with `nonce`.
pub open spec fn sealed_passfile(key: Seq<u8>, nonce: Seq<u8>, plaintext: Seq<u8>) -> Seq<u8> {
    nonce + aes256gcm_seal(key, nonce, plaintext)
}

/// The plaintext that a passfile holds under `key`: the first 12 bytes are the
/// nonce, the rest is opened with it.
pub open spec fn passfile_plaintext(key: Seq<u8>, file: Seq<u8>) -> Option<Seq<u8>> {
    if file.len() < NONCE_LEN {
        None
    } else {
        aes256gcm_open(key, file.take(NONCE_LEN as int), file.skip(NONCE_LEN as int))
    }
}

/// The key that seals and opens the passfile: SHA-256 of the master password.
pub fn get_key(key_as_string: &String) -> (key: Vec<u8>)
    ensures
        key@ == master_key(key_as_string@),
        key@.len() == 32,
{
    let key_as_bytes = key_as_string.as_str().as_bytes();
    sha256_digest(key_as_bytes)
}

/// Seals `plaintext` under `key` with the given nonce, nonce first.
pub fn seal_passfile(key: &Vec<u8>, nonce: &Vec<u8>, plaintext: &Vec<u8>) -> (res: Option<Vec<u8>>)
    requires
        key@.len() == 32,
        nonce@.len() == NONCE_LEN,
    ensures
        res is Some <==> plaintext@.len() <= P_MAX,
        res is Some ==> res.unwrap()@.len() == NONCE_LEN + plaintext@.len() + 16,
        res is Some ==> res.unwrap()@ == sealed_passfile(key@, nonce@, plaintext@),
        res is Some ==> passfile_plaintext(key@, res.unwrap()@) == Some(plaintext@),
{
    match aes256gcm_encrypt(key.as_slice(), nonce.as_slice(), plaintext.as_slice()) {
        Some(cipher_data) => {
            let mut data_buf: Vec<u8> = nonce.clone();
            let n = cipher_data.len();
            for i in 0..n
                invariant
                    n == cipher_data@.len(),
                    data_buf@ == nonce@ + cipher_data@.take(i as int),
            {
                data_buf.push(cipher_data[i]);
                assert(cipher_data@.take(i + 1) =~= cipher_data@.take(i as int).push(
                    cipher_data@[i as int],
                ));
            }
            assert(cipher_data@.take(n as int) =~= cipher_data@);
            assert(data_buf@.take(NONCE_LEN as int) =~= nonce@);
            assert(data_buf@.skip(NONCE_LEN as int) =~= cipher_data@);
            Some(data_buf)
        },
        None => None,
    }
}

/// Seals `passfile_data_bytes` under `key` with a fresh random nonce: the bytes
/// to write to the passfile.
pub fn encrypt(key: &Vec<u8>, passfile_data_bytes: &Vec<u8>) -> (res: Option<Vec<u8>>)
    requires
        key@.len() == 32,
    ensures
        res is Some <==> passfile_data_bytes@.len() <= P_MAX,
        res is Some ==> res.unwrap()@.len() == NONCE_LEN + passfile_data_bytes@.len() + 16,
        res is Some ==> res.unwrap()@ == sealed_passfile(
            key@,
            res.unwrap()@.take(NONCE_LEN as int),
            passfile_data_bytes@,
        ),
        res is Some ==> passfile_plaintext(key@, res.unwrap()@) == Some(passfile_data_bytes@),
{
    let mut nonce_buff: Vec<u8> = Vec::new();
    for _i in 0..NONCE_LEN
        invariant
            nonce_buff@.len() == _i,
    {
        let byte = random_byte();
        nonce_buff.push(byte);
    }
    let res = seal_passfile(key, &nonce_buff, passfile_data_bytes);
    proof {
        if res is Some {
            assert(res.unwrap()@.take(NONCE_LEN as int) =~= nonce_buff@);
        }
    }
    res
}

/// The plaintext of a passfile under `key`; `None` where the file does not
/// authenticate under it (a wrong master password or a damaged file).
pub fn decrypt(decipher: &Vec<u8>, file: &Vec<u8>) -> (res: Option<Vec<u8>>)
    requires
        decipher@.len() == 32,
        file@.len() >= NONCE_LEN,
    ensures
        match res {
            Some(p) => passfile_plaintext(decipher@, file@) == Some(p@),
            None => passfile_plaintext(decipher@, file@) is None,
        },
{
    let (nonce, cipher_text) = file.as_slice().split_at(NONCE_LEN);
    aes256gcm_decrypt(decipher.as_slice(), nonce, cipher_text)
}

} // verus!
