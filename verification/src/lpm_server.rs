//! The lpm server: checking a client's master password, adding the passwords it
//! sends, and the listing it answers with.
use vstd::prelude::*;
use vstd::utf8::encode_utf8;
use aes_gcm::aead::Aead;
use aes_gcm::KeyInit;
use rand::RngCore;
use crate::text::{lemma_differs_early, lemma_trim_prefix_of, is_ws, lemma_trim_unchanged, lemma_split_at_space, lemma_split_no_space, trim, split, starts_with, chars_of, eq_str, trim_chars, split_chars, starts_with_str, string_from, bytes_eq};
use crate::serde::{Entry, PasswordData, encode_passwords, serialize_passwords};
use crate::crypto::{master_key, P_MAX, NONCE_LEN, sha256, sha256_digest, sealed_passfile, passfile_plaintext, seal_passfile};
use crate::commands::{has_id, unique_ids, generated_password, resolve_value, random_requested, contains_id, random_password, lemma_sample_password, sample_password};
use crate::lpm_client::empty_message;

verus! {

/// What AES-128-GCM produces for `plaintext` under `key` and `nonce` (no
/// associated data): the ciphertext followed by the 16-byte tag.
pub uninterp spec fn aes128gcm_seal(key: Seq<u8>, nonce: Seq<u8>, plaintext: Seq<u8>) -> Seq<u8>;

/// `Aead::encrypt` of `aes_gcm::Aes128Gcm` with no associated data: it fails
/// exactly when the plaintext is longer than `P_MAX`; otherwise the ciphertext
/// followed by the 16-byte tag.
#[verifier::external_body]
fn aes128gcm_encrypt(key: &[u8], nonce: &[u8], plaintext: &[u8]) -> (res: Option<Vec<u8>>)
    requires
        key@.len() == 16,
        nonce@.len() == 12,
    ensures
        res is Some <==> plaintext@.len() <= P_MAX,
        res is Some ==> res.unwrap()@ == aes128gcm_seal(key@, nonce@, plaintext@),
        res is Some ==> res.unwrap()@.len() == plaintext@.len() + 16,
{
    let cipher = aes_gcm::Aes128Gcm::new(aes_gcm::Key::<aes_gcm::Aes128Gcm>::from_slice(key));
    cipher.encrypt(aes_gcm::Nonce::from_slice(nonce), plaintext).ok()
}

/// `rand::rngs::OsRng::fill_bytes` on `len` bytes: random bytes from the
/// operating system.
#[verifier::external_body]
fn os_random_bytes(len: usize) -> (res: Vec<u8>)
    ensures
        res@.len() == len,
{
    let mut buf = vec![0u8; len];
    rand::rngs::OsRng::default().fill_bytes(&mut buf);
    buf
}

/// What a decrypted request asks of the server.
#[derive(Clone, Copy, Debug, PartialEq, Eq, Structural)]
pub enum ServerAction {
    NewPassword,
    List,
    Other,
}

pub open spec fn server_action_of(action: Seq<char>) -> ServerAction {
    if starts_with(action, "np"@) || starts_with(action, "new password"@) {
        ServerAction::NewPassword
    } else if trim(action) == "lp"@ {
        ServerAction::List
    } else {
        ServerAction::Other
    }
}

/// Classifies a decrypted request.
pub fn server_action(action: &str) -> (res: ServerAction)
    ensures
        res == server_action_of(action@),
{
    let a = chars_of(action);
    if starts_with_str(&a, "np") || starts_with_str(&a, "new password") {
        ServerAction::NewPassword
    } else {
        let t = trim_chars(&a);
        if eq_str(&t, "lp") {
            ServerAction::List
        } else {
            ServerAction::Other
        }
    }
}

/// Whether the master password a client sent hashes to the server's key.
pub fn master_key_matches(sha_key: &Vec<u8>, provided: &[u8]) -> (res: bool)
    ensures
        res == (sha256(provided@) == sha_key@),
{
    let provided_key = sha256_digest(provided);
    bytes_eq(provided_key.as_slice(), sha_key.as_slice())
}

/// The identifier and value of a new-password request, taken from the trimmed
/// request split on single spaces.
pub open spec fn request_args(action: Seq<char>) -> (Seq<char>, Seq<char>) {
    let t = trim(action);
    let p = split(t);
    if starts_with(t, "np"@) {
        (p[1], p[2])
    } else {
        (p[2], p[3])
    }
}

/// The requests whose pieces the server can index.
pub open spec fn request_in_bounds(action: Seq<char>) -> bool {
    let t = trim(action);
    if starts_with(t, "np"@) {
        split(t).len() >= 3
    } else {
        split(t).len() >= 4
    }
}

/// Whether the server can index the pieces of a new-password request.
pub fn request_input_in_bounds(action: &str) -> (res: bool)
    ensures
        res == request_in_bounds(action@),
{
    let t = trim_chars(&chars_of(action));
    let p = split_chars(&t);
    if starts_with_str(&t, "np") {
        p.len() >= 3
    } else {
        p.len() >= 4
    }
}

/// A request `np ID VALUE` is a new-password request that names exactly `ID`
/// and `VALUE`, the second and third pieces as sent, case and all. (Identifier
/// and value hold no space, and the value ends in a character other than white
/// space.) With `server_np`, a fresh `ID` is stored with `VALUE` itself unless
/// the value is `r` or `random`.
pub proof fn law_np_request_names(id: Seq<char>, value: Seq<char>)
    requires
        forall|i: int| 0 <= i < id.len() ==> id[i] != ' ',
        forall|i: int| 0 <= i < value.len() ==> value[i] != ' ',
        value.len() > 0,
        !is_ws(value.last()),
    ensures
        server_action_of("np "@ + id + " "@ + value) == ServerAction::NewPassword,
        request_in_bounds("np "@ + id + " "@ + value),
        request_args("np "@ + id + " "@ + value) == (id, value),
        forall|random: Seq<char>|
            value != "r"@ && value != "random"@ ==> #[trigger] resolve_value(value, random) == value,
{
    reveal_strlit("np ");
    reveal_strlit(" ");
    reveal_strlit("np");
    let input = "np "@ + id + " "@ + value;
    let rest = id + seq![' '] + value;
    assert(input =~= "np"@ + seq![' '] + rest);
    lemma_split_at_space("np"@, rest);
    lemma_split_at_space(id, value);
    lemma_split_no_space("np"@);
    lemma_split_no_space(id);
    lemma_split_no_space(value);
    assert(split(input) =~= seq!["np"@, id, value]);
    assert(input.last() == value.last());
    lemma_trim_unchanged(input);
    assert(input.take(2) =~= "np"@);
}

/// A request that is `lp` (white space around it aside) asks for the listing.
pub proof fn law_lp_request_lists(action: Seq<char>)
    requires
        trim(action) == "lp"@,
    ensures
        server_action_of(action) == ServerAction::List,
{
    reveal_strlit("lp");
    reveal_strlit("np");
    reveal_strlit("new password");
    lemma_trim_prefix_of(action);
    assert(trim(action)[0] == 'l');
    lemma_differs_early(action, "np"@);
    lemma_differs_early(action, "new password"@);
}

/// The outcome of a new-password request.
#[derive(Clone, Copy, Debug, PartialEq, Eq, Structural)]
pub enum ServerNp {
    /// The identifier is taken: the server answers `reused` and ends the session.
    Reused,
    /// The password was added: the server saves and answers `ok`.
    Added,
}

/// Handles a new-password request: refuses a taken identifier, otherwise adds
/// the password (a random one where the value is `r` or `random`).
pub fn server_np(passfile_data: &mut Vec<PasswordData>, action: &str) -> (res: ServerNp)
    requires
        request_in_bounds(action@),
    ensures
        ({
            let (id, value) = request_args(action@);
            if has_id(old(passfile_data).deep_view(), id) {
                res == ServerNp::Reused && final(passfile_data).deep_view() == old(passfile_data).deep_view()
            } else {
                res == ServerNp::Added && exists|random: Seq<char>|
                    generated_password(random) && final(passfile_data).deep_view()
                        == old(passfile_data).deep_view().push((id, resolve_value(value, random)))
            }
        }),
        unique_ids(old(passfile_data).deep_view()) ==> unique_ids(final(passfile_data).deep_view()),
{
    let ghost old_vault = passfile_data.deep_view();
    proof {
        lemma_sample_password();
    }
    let t = trim_chars(&chars_of(action));
    let p = split_chars(&t);
    assert(forall|k: int| 0 <= k < p@.len() ==> p@[k]@ == split(t@)[k]);
    let (id, value) = if starts_with_str(&t, "np") {
        (p[1].clone(), p[2].clone())
    } else {
        (p[2].clone(), p[3].clone())
    };
    if contains_id(passfile_data, &id) {
        return ServerNp::Reused;
    }
    let ghost mut random = sample_password();
    let resolved: String = if random_requested(&value) {
        let generated = random_password();
        proof {
            random = generated@;
        }
        generated
    } else {
        string_from(&value)
    };
    let ghost entry = (id@, resolved@);
    passfile_data.push(PasswordData::new(string_from(&id), resolved));
    assert(passfile_data.deep_view() =~= old_vault.push(entry)) by {
        assert forall|k: int| 0 <= k < old_vault.len() implies passfile_data.deep_view()[k] == old_vault[k] by {
            assert(passfile_data@[k] == old(passfile_data)@[k]);
        }
    }
    proof {
        if unique_ids(old_vault) {
            let v2 = old_vault.push(entry);
            assert forall|i: int, j: int| 0 <= i < v2.len() && 0 <= j < v2.len() && i != j implies v2[i].0
                != v2[j].0 by {
                if i == old_vault.len() {
                    assert(old_vault[j].0 != entry.0);
                } else if j == old_vault.len() {
                    assert(old_vault[i].0 != entry.0);
                }
            }
        }
    }
    ServerNp::Added
}

/// The passfile bytes after a new password: the store encoded and sealed under
/// `aes_key` with a nonce from the operating system.
pub fn server_save(passfile_data: &Vec<PasswordData>, aes_key: &Vec<u8>) -> (res: Option<Vec<u8>>)
    requires
        aes_key@.len() == 32,
    ensures
        res is Some <==> encode_passwords(passfile_data.deep_view()).len() <= P_MAX,
        res is Some ==> res.unwrap()@.len() == NONCE_LEN + encode_passwords(passfile_data.deep_view()).len() + 16,
        res is Some ==> res.unwrap()@ == sealed_passfile(
            aes_key@,
            res.unwrap()@.take(NONCE_LEN as int),
            encode_passwords(passfile_data.deep_view()),
        ),
        res is Some ==> passfile_plaintext(aes_key@, res.unwrap()@) == Some(
            encode_passwords(passfile_data.deep_view()),
        ),
{
    let passfile_data_bytes = serialize_passwords(passfile_data);
    let nonce_buff = os_random_bytes(NONCE_LEN);
    let res = seal_passfile(aes_key, &nonce_buff, &passfile_data_bytes);
    proof {
        if res is Some {
            assert(res.unwrap()@.take(NONCE_LEN as int) =~= nonce_buff@);
        }
    }
    res
}

/// The listing the server sends for `lp` under a given one-off key and nonce:
/// `empty` where nothing is stored, otherwise the 16-byte key, the 12-byte nonce
/// and the AES-128-GCM sealing of the encoded store; `None` where the encoding is
/// longer than AES-GCM seals.
pub fn lp_message(passfile_data: &Vec<PasswordData>, key: &Vec<u8>, nonce: &Vec<u8>) -> (res: Option<Vec<u8>>)
    requires
        key@.len() == 16,
        nonce@.len() == 12,
    ensures
        passfile_data@.len() == 0 ==> res is Some && res.unwrap()@ == empty_message(),
        passfile_data@.len() > 0 ==> (res is Some <==> encode_passwords(passfile_data.deep_view()).len() <= P_MAX),
        passfile_data@.len() > 0 && res is Some ==> res.unwrap()@ == key@ + nonce@ + aes128gcm_seal(
            key@,
            nonce@,
            encode_passwords(passfile_data.deep_view()),
        ),
{
    if passfile_data.len() == 0 {
        let empty: Vec<u8> = vec![101, 109, 112, 116, 121];
        assert(empty@ =~= empty_message());
        return Some(empty);
    }
    let passfile_data_serialized = serialize_passwords(passfile_data);
    match aes128gcm_encrypt(key.as_slice(), nonce.as_slice(), passfile_data_serialized.as_slice()) {
        None => None,
        Some(encrypted_table) => {
            let mut message_vec: Vec<u8> = key.clone();
            let mut i: usize = 0;
            while i < nonce.len()
                invariant
                    i <= nonce@.len(),
                    message_vec@ == key@ + nonce@.take(i as int),
                decreases nonce@.len() - i,
            {
                message_vec.push(nonce[i]);
                assert(nonce@.take(i + 1) =~= nonce@.take(i as int).push(nonce@[i as int]));
                i = i + 1;
            }
            assert(nonce@.take(nonce@.len() as int) =~= nonce@);
            let ghost prefix = message_vec@;
            let mut j: usize = 0;
            while j < encrypted_table.len()
                invariant
                    j <= encrypted_table@.len(),
                    message_vec@ == prefix + encrypted_table@.take(j as int),
                decreases encrypted_table@.len() - j,
            {
                message_vec.push(encrypted_table[j]);
                assert(encrypted_table@.take(j + 1) =~= encrypted_table@.take(j as int).push(
                    encrypted_table@[j as int],
                ));
                j = j + 1;
            }
            assert(encrypted_table@.take(encrypted_table@.len() as int) =~= encrypted_table@);
            Some(message_vec)
        },
    }
}

/// The listing the server sends for `lp`, with a fresh key and nonce from the
/// operating system.
pub fn lp(passfile_data: &Vec<PasswordData>) -> (res: Option<Vec<u8>>)
    ensures
        passfile_data@.len() == 0 ==> res is Some && res.unwrap()@ == empty_message(),
        passfile_data@.len() > 0 ==> (res is Some <==> encode_passwords(passfile_data.deep_view()).len() <= P_MAX),
        passfile_data@.len() > 0 && res is Some ==> res.unwrap()@.len() >= 28 && res.unwrap()@.skip(28)
            == aes128gcm_seal(
            res.unwrap()@.take(16),
            res.unwrap()@.subrange(16, 28),
            encode_passwords(passfile_data.deep_view()),
        ),
{
    let key_bytes = os_random_bytes(16);
    let nonce = os_random_bytes(12);
    let res = lp_message(passfile_data, &key_bytes, &nonce);
    proof {
        if passfile_data@.len() > 0 && res is Some {
            let m = res.unwrap()@;
            assert(m.take(16) =~= key_bytes@);
            assert(m.subrange(16, 28) =~= nonce@);
            assert(m.skip(28) =~= aes128gcm_seal(key_bytes@, nonce@, encode_passwords(passfile_data.deep_view())));
        }
    }
    res
}

/// A client that sends the master password is let in: the key the server derives
/// from the master password (`get_key`) is what `master_key_matches` compares the
/// SHA-256 of the received password bytes with.
pub proof fn law_master_password_accepted(password: Seq<char>)
    ensures
        sha256(encode_utf8(password)) == master_key(password),
{
}

} // verus!
