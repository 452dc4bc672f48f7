use aes_gcm::aead::Aead;
use aes_gcm::KeyInit;
use lpm::channel::{ack, announce, new_key_pair, open_message, peer_key, seal_bytes, seal_text};
use lpm::crypto::{decrypt, get_key};
use lpm::lpm_client::{listing_text, access_granted, join_blocks, ask_password, block_count, classify_input, is_empty_marker, response_cp, response_np, ClientAction};
use lpm::lpm_server::{lp, lp_message, master_key_matches, request_input_in_bounds, server_action, server_np, server_save, ServerAction, ServerNp};
use lpm::serde::{deserialize_passwords, serialize_passwords, PasswordData};

fn entry(id: &str, value: &str) -> PasswordData {
    PasswordData::new(id.to_string(), value.to_string())
}

fn pairs(v: &[PasswordData]) -> Vec<(String, String)> {
    v.iter().map(|p| (p.id.clone(), p.value.clone())).collect()
}

#[test]
fn client_sends_inline_requests() {
    match classify_input("  np mail secret\n") {
        ClientAction::SendNewPassword(r) => assert_eq!(r, "np mail secret"),
        _ => panic!("expected np"),
    }
    match classify_input("new password bank 1234") {
        ClientAction::SendNewPassword(r) => assert_eq!(r, "new password bank 1234"),
        _ => panic!("expected new password"),
    }
    match classify_input("copy mail") {
        ClientAction::SendCopy(r) => assert_eq!(r, "cp mail"),
        _ => panic!("expected cp"),
    }
    match classify_input("del mail\n") {
        ClientAction::SendRemove(r) => assert_eq!(r, "rm mail"),
        _ => panic!("expected rm"),
    }
}

#[test]
fn client_plain_commands() {
    assert!(matches!(classify_input("np\n"), ClientAction::AskPassword));
    assert!(matches!(classify_input("lp"), ClientAction::List));
    assert!(matches!(classify_input("show id"), ClientAction::Show));
    assert!(matches!(classify_input("wq"), ClientAction::Exit));
    assert!(matches!(classify_input("np a"), ClientAction::Invalid));
    assert!(matches!(classify_input(""), ClientAction::Nothing));
    assert!(matches!(classify_input("help"), ClientAction::Help));
}

#[test]
fn ask_password_builds_the_request() {
    assert_eq!(ask_password(" mail\n", "secret \n"), "np mail secret");
}

#[test]
fn replies() {
    assert!(response_np(b"reused"));
    assert!(!response_np(b"ok"));
    assert!(is_empty_marker(b"empty"));
    assert!(!is_empty_marker(b"empt"));
    assert_eq!(response_cp(b"empty"), None);
    assert_eq!(response_cp("pässword".as_bytes()), Some("pässword".to_string()));
    assert_eq!(block_count(&[3, 1, 0, 0, 9]), 259);
}

#[test]
fn server_actions() {
    assert_eq!(server_action("np a b"), ServerAction::NewPassword);
    assert_eq!(server_action("new password a b"), ServerAction::NewPassword);
    assert_eq!(server_action(" lp "), ServerAction::List);
    assert_eq!(server_action("cp a"), ServerAction::Other);
    assert!(request_input_in_bounds("np a b"));
    assert!(!request_input_in_bounds("np a"));
    assert!(!request_input_in_bounds("new password a"));
}

#[test]
fn server_adds_or_refuses() {
    let mut data = vec![entry("mail", "x")];
    assert_eq!(server_np(&mut data, "np mail y"), ServerNp::Reused);
    assert_eq!(server_np(&mut data, "new password bank 1234"), ServerNp::Added);
    assert_eq!(pairs(&data), vec![("mail".to_string(), "x".to_string()), ("bank".to_string(), "1234".to_string())]);
    assert_eq!(server_np(&mut data, "np gen r"), ServerNp::Added);
    assert_eq!(data[2].value.chars().count(), 30);
}

#[test]
fn server_checks_the_master_key() {
    let key = get_key(&"master".to_string());
    assert!(master_key_matches(&key, b"master"));
    assert!(!master_key_matches(&key, b"Master"));
}

#[test]
fn server_save_is_readable_with_the_key() {
    let key = get_key(&"master".to_string());
    let data = vec![entry("a", "b")];
    let file = server_save(&data, &key).unwrap();
    let plain = decrypt(&key, &file).unwrap();
    assert_eq!(pairs(&deserialize_passwords(&plain).unwrap()), pairs(&data));
}

#[test]
fn lp_message_layout() {
    assert_eq!(lp_message(&Vec::new(), &vec![0u8; 16], &vec![0u8; 12]), Some(b"empty".to_vec()));
    let data = vec![entry("a", "b")];
    let key: Vec<u8> = (1u8..17).collect();
    let nonce: Vec<u8> = (1u8..13).collect();
    let m = lp_message(&data, &key, &nonce).unwrap();
    assert_eq!(&m[..16], key.as_slice());
    assert_eq!(&m[16..28], nonce.as_slice());
    let cipher = aes_gcm::Aes128Gcm::new(aes_gcm::Key::<aes_gcm::Aes128Gcm>::from_slice(&key));
    let plain = cipher.decrypt(aes_gcm::Nonce::from_slice(&nonce), &m[28..]).unwrap();
    assert_eq!(plain, serialize_passwords(&data));
    let fresh = lp(&data).unwrap();
    assert_eq!(fresh.len(), m.len());
    assert_eq!(lp(&Vec::new()), Some(b"empty".to_vec()));
}

#[test]
fn rsa_channel_round_trip() {
    let (private_key, public_key) = new_key_pair(512).expect("key pair");
    let der = announce(&public_key);
    assert_eq!(der, public_key.der);
    let peer = peer_key(&der).expect("parses");
    let sealed = seal_text(&peer, "np a b").unwrap();
    assert_eq!(open_message(&private_key, &sealed), Some(b"np a b".to_vec()));
    let sealed = seal_bytes(&public_key, &[1, 2, 3]).unwrap();
    assert_eq!(open_message(&private_key, &sealed), Some(vec![1, 2, 3]));
    let a = ack(&public_key).unwrap();
    assert_eq!(open_message(&private_key, &a), Some(b"ACK".to_vec()));
    assert!(peer_key(&[1, 2, 3]).is_none());
    assert!(seal_bytes(&public_key, &[7u8; 54]).is_none());
    assert!(seal_bytes(&public_key, &[7u8; 53]).is_some());
}

#[test]
fn the_master_password_is_accepted() {
    let password = "pässword".to_string();
    let key = get_key(&password);
    assert!(master_key_matches(&key, password.as_bytes()));
}

#[test]
fn login_reply_and_block_joining() {
    assert!(access_granted(b"correct"));
    assert!(!access_granted(b"incorrect"));
    assert!(!access_granted(b"correct "));
    let data = vec![PasswordData::new("a".to_string(), "b".to_string())];
    let bytes = serialize_passwords(&data);
    let blocks: Vec<Vec<u8>> = bytes.chunks(5).map(|c| c.to_vec()).collect();
    let joined = join_blocks(&blocks);
    assert_eq!(joined, bytes);
    assert_eq!(pairs(&deserialize_passwords(&joined).unwrap()), pairs(&data));
    assert!(join_blocks(&Vec::new()).is_empty());
}

#[test]
fn listing_text_builds_the_tables() {
    let data = vec![PasswordData::new("mail".to_string(), "secret".to_string())];
    let bytes = serialize_passwords(&data);
    let blocks: Vec<Vec<u8>> = bytes.chunks(7).map(|c| c.to_vec()).collect();
    let full = listing_text(&blocks, true).unwrap();
    assert_eq!(full, lpm::commands::password_table(&data));
    assert!(full.contains("secret"));
    let ids = listing_text(&blocks, false).unwrap();
    assert_eq!(ids, lpm::commands::id_table(&data));
    assert!(!ids.contains("secret"));
    assert!(listing_text(&vec![vec![1, 2]], true).is_none());
}

#[test]
fn key_pair_has_the_requested_size() {
    let (private_key, public_key) = new_key_pair(512).expect("key pair");
    assert!(seal_bytes(&public_key, &[0u8; 53]).is_some());
    assert!(seal_bytes(&public_key, &[0u8; 54]).is_none());
    let sealed = seal_bytes(&public_key, &[5u8; 10]).unwrap();
    assert_eq!(sealed.len(), 64);
    assert_eq!(open_message(&private_key, &sealed), Some(vec![5u8; 10]));
}
