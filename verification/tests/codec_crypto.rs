use aes_gcm::aead::Aead;
use aes_gcm::KeyInit;
use lpm::crypto::{decrypt, encrypt, get_key, seal_passfile, NONCE_LEN};
use lpm::serde::{deserialize_passwords, serialize_passwords, PasswordData};
use lpm::utils::{read_passfile, PassfileError};
use lpm::commands::save;

fn entry(id: &str, value: &str) -> PasswordData {
    PasswordData::new(id.to_string(), value.to_string())
}

fn ids(v: &[PasswordData]) -> Vec<(String, String)> {
    v.iter().map(|p| (p.id.clone(), p.value.clone())).collect()
}

#[test]
fn serialize_empty_is_a_zero_count() {
    assert_eq!(serialize_passwords(&Vec::new()), vec![0u8; 8]);
}

#[test]
fn serialize_matches_the_documented_layout() {
    let bytes = serialize_passwords(&vec![entry("a", "bc")]);
    let expected: Vec<u8> = vec![
        1, 0, 0, 0, 0, 0, 0, 0, 1, 0, 0, 0, 0, 0, 0, 0, b'a', 2, 0, 0, 0, 0, 0, 0, 0, b'b', b'c',
    ];
    assert_eq!(bytes, expected);
}

#[test]
fn serialize_agrees_with_bincode_on_pairs() {
    let data = vec![entry("mail", "p4ss wörd"), entry("bank", "")];
    let pairs = ids(&data);
    assert_eq!(serialize_passwords(&data), bincode::serialize(&pairs).unwrap());
}

#[test]
fn deserialize_gives_back_what_serialize_wrote() {
    let data = vec![entry("mail", "secret"), entry("ünï", "ç😀"), entry("", "")];
    let bytes = serialize_passwords(&data);
    let back = deserialize_passwords(&bytes).expect("decodes");
    assert_eq!(ids(&back), ids(&data));
}

#[test]
fn deserialize_ignores_trailing_bytes() {
    let data = vec![entry("x", "y")];
    let mut bytes = serialize_passwords(&data);
    bytes.extend_from_slice(&[9, 9, 9]);
    assert_eq!(ids(&deserialize_passwords(&bytes).unwrap()), ids(&data));
}

#[test]
fn deserialize_rejects_short_or_invalid_input() {
    assert!(deserialize_passwords(&Vec::new()).is_none());
    assert!(deserialize_passwords(&vec![1, 0, 0, 0]).is_none());
    let truncated = {
        let mut b = serialize_passwords(&vec![entry("abc", "def")]);
        b.pop();
        b
    };
    assert!(deserialize_passwords(&truncated).is_none());
    let bad_utf8: Vec<u8> = vec![1, 0, 0, 0, 0, 0, 0, 0, 1, 0, 0, 0, 0, 0, 0, 0, 0xff, 0, 0, 0, 0, 0, 0, 0, 0];
    assert!(deserialize_passwords(&bad_utf8).is_none());
}

#[test]
fn get_key_is_sha256_of_the_password() {
    let key = get_key(&"abc".to_string());
    let expected: Vec<u8> = vec![
        0xba, 0x78, 0x16, 0xbf, 0x8f, 0x01, 0xcf, 0xea, 0x41, 0x41, 0x40, 0xde, 0x5d, 0xae, 0x22,
        0x23, 0xb0, 0x03, 0x61, 0xa3, 0x96, 0x17, 0x7a, 0x9c, 0xb4, 0x10, 0xff, 0x61, 0xf2, 0x00,
        0x15, 0xad,
    ];
    assert_eq!(key, expected);
}

#[test]
fn seal_passfile_puts_the_nonce_before_the_aes_gcm_output() {
    let key = get_key(&"master".to_string());
    let nonce: Vec<u8> = (0u8..12).collect();
    let plaintext = b"hello passfile".to_vec();
    let sealed = seal_passfile(&key, &nonce, &plaintext).unwrap();
    let cipher = aes_gcm::Aes256Gcm::new(aes_gcm::Key::<aes_gcm::Aes256Gcm>::from_slice(&key));
    let expected = cipher.encrypt(aes_gcm::Nonce::from_slice(&nonce), plaintext.as_slice()).unwrap();
    assert_eq!(&sealed[..12], nonce.as_slice());
    assert_eq!(&sealed[12..], expected.as_slice());
    assert_eq!(sealed.len(), 12 + plaintext.len() + 16);
}

#[test]
fn decrypt_opens_what_encrypt_sealed() {
    let key = get_key(&"master".to_string());
    let plaintext = b"some plaintext".to_vec();
    let file = encrypt(&key, &plaintext).unwrap();
    assert_eq!(file.len(), NONCE_LEN + plaintext.len() + 16);
    assert_eq!(decrypt(&key, &file), Some(plaintext));
}

#[test]
fn decrypt_refuses_a_wrong_key_or_a_damaged_file() {
    let key = get_key(&"master".to_string());
    let file = encrypt(&key, &b"data".to_vec()).unwrap();
    let other = get_key(&"other".to_string());
    assert_eq!(decrypt(&other, &file), None);
    let mut damaged = file.clone();
    let last = damaged.len() - 1;
    damaged[last] ^= 1;
    assert_eq!(decrypt(&key, &damaged), None);
    assert_eq!(decrypt(&key, &vec![0u8; 12]), None);
}

#[test]
fn two_encryptions_use_different_nonces() {
    let key = get_key(&"master".to_string());
    let a = encrypt(&key, &b"same".to_vec()).unwrap();
    let b = encrypt(&key, &b"same".to_vec()).unwrap();
    assert_ne!(a, b);
}

#[test]
fn read_passfile_reads_back_what_save_wrote() {
    let password = "correct horse".to_string();
    let key = get_key(&password);
    let data = vec![entry("mail", "one"), entry("bank", "two")];
    let file = save(&data, &key).unwrap();
    let (back, key_back) = read_passfile(&password, &file).unwrap();
    assert_eq!(ids(&back), ids(&data));
    assert_eq!(key_back, key);
}

#[test]
fn read_passfile_with_a_wrong_password_is_unauthorized() {
    let key = get_key(&"right".to_string());
    let file = save(&vec![entry("a", "b")], &key).unwrap();
    assert_eq!(read_passfile(&"wrong".to_string(), &file).err(), Some(PassfileError::AccessUnauthorized));
}

#[test]
fn read_passfile_of_an_empty_plaintext_is_corrupted() {
    let password = "pw".to_string();
    let key = get_key(&password);
    let file = encrypt(&key, &Vec::new()).unwrap();
    assert_eq!(read_passfile(&password, &file).err(), Some(PassfileError::Corrupted));
}
