//! Opening the passfile with the master password, and the answer to the offer to
//! create a missing passfile.
use vstd::prelude::*;
use crate::text::{trim, lower, chars_of, lower_chars, trim_chars, eq_str};
use crate::serde::{Entry, PasswordData, parses_as, parseable, fits, encode_passwords, deserialize_passwords, law_decode_encode};
use crate::crypto::{NONCE_LEN, master_key, passfile_plaintext, get_key, decrypt};

verus! {

/// Why the passfile could not be read.
#[derive(Clone, Copy, Debug, PartialEq, Eq, Structural)]
pub enum PassfileError {
    /// The file does not authenticate under the key of the password given
    /// ("Access unauthorized").
    AccessUnauthorized,
    /// It authenticates but holds no encoded list of passwords.
    Corrupted,
}

/// The answer to "password file not exists, do you want to create a new one".
#[derive(Clone, Copy, Debug, PartialEq, Eq, Structural)]
pub enum FilepassAnswer {
    Create,
    Refuse,
    Invalid,
}

/// `y` (any case) or nothing creates the passfile, `n` refuses; the answer is
/// lower-cased and trimmed first.
pub open spec fn filepass_outcome(input: Seq<char>) -> FilepassAnswer {
    let t = trim(lower(input));
    if t == "y"@ || t.len() == 0 {
        FilepassAnswer::Create
    } else if t == "n"@ {
        FilepassAnswer::Refuse
    } else {
        FilepassAnswer::Invalid
    }
}

/// Classifies the text read so far in answer to the offer to create the passfile.
pub fn check_filepass(input: &str) -> (res: FilepassAnswer)
    ensures
        res == filepass_outcome(input@),
{
    let cs = chars_of(input);
    let l = lower_chars(&cs);
    let t = trim_chars(&l);
    if eq_str(&t, "y") || t.len() == 0 {
        FilepassAnswer::Create
    } else if eq_str(&t, "n") {
        FilepassAnswer::Refuse
    } else {
        FilepassAnswer::Invalid
    }
}

/// What a passfile holds under `key`.
pub open spec fn stored_passwords(key: Seq<u8>, file: Seq<u8>) -> Result<Seq<Entry>, PassfileError> {
    match passfile_plaintext(key, file) {
        None => Err(PassfileError::AccessUnauthorized),
        Some(p) => if parseable(p) {
            Ok(choose|es: Seq<Entry>| parses_as(p, es))
        } else {
            Err(PassfileError::Corrupted)
        },
    }
}

/// Opens the passfile with the master password: the stored passwords and the
/// key, which saving uses again.
pub fn read_passfile(password: &String, file: &Vec<u8>) -> (res: Result<(Vec<PasswordData>, Vec<u8>), PassfileError>)
    requires
        file@.len() >= NONCE_LEN,
    ensures
        match res {
            Ok((v, key)) => key@ == master_key(password@) && stored_passwords(key@, file@) == Ok::<Seq<Entry>, PassfileError>(v.deep_view()),
            Err(e) => stored_passwords(master_key(password@), file@) == Err::<Seq<Entry>, PassfileError>(e),
        },
{
    let key = get_key(password);
    match decrypt(&key, file) {
        None => Err(PassfileError::AccessUnauthorized),
        Some(passfile_data_bytes) => match deserialize_passwords(&passfile_data_bytes) {
            None => Err(PassfileError::Corrupted),
            Some(passfile_data) => {
                proof {
                    let p = passfile_data_bytes@;
                    let es = choose|es: Seq<Entry>| parses_as(p, es);
                    assert(parses_as(p, passfile_data.deep_view()));
                    assert(es == passfile_data.deep_view());
                }
                Ok((passfile_data, key))
            },
        },
    }
}

/// What `read_passfile` reads back from the bytes that `save` wrote is the
/// stored list that was saved.
pub proof fn law_read_after_save(key: Seq<u8>, file: Seq<u8>, es: Seq<Entry>)
    requires
        fits(es),
        passfile_plaintext(key, file) == Some(encode_passwords(es)),
    ensures
        stored_passwords(key, file) == Ok::<Seq<Entry>, PassfileError>(es),
{
    law_decode_encode(es);
    let p = encode_passwords(es);
    let chosen = choose|x: Seq<Entry>| parses_as(p, x);
    assert(parses_as(p, chosen));
}

} // verus!
