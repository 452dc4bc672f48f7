//! The client of a remote lpm server: what each line typed at its prompt sends,
//! and how the server's replies are read.
use vstd::prelude::*;
use vstd::utf8::{valid_utf8, decode_utf8};
use vstd::bytes::spec_u32_from_le_bytes;
use crate::serde::{Entry, parses_as, parseable, deserialize_passwords};
use crate::commands::{lp_header, lp_rows, show_header, show_rows, password_table, id_table};
use crate::table::rounded_table_text;
use crate::text::{trim, split, starts_with, chars_of, eq_str, trim_chars, split_chars, starts_with_str, concat_chars, string_from, string_from_utf8, bytes_eq};

verus! {

/// What a line typed at the client's prompt asks for; the `Send` variants carry
/// the request to send to the server.
pub enum ClientAction {
    SendNewPassword(String),
    SendCopy(String),
    SendRemove(String),
    Help,
    List,
    AskPassword,
    Show,
    GetConfiguration,
    Author,
    Exit,
    Clear,
    Nothing,
    Invalid,
}

pub open spec fn inline_np(t: Seq<char>) -> bool {
    let n = split(t).len();
    (starts_with(t, "np"@) && n == 3) || (starts_with(t, "new password"@) && n == 4)
}

pub open spec fn np_request(t: Seq<char>) -> Seq<char> {
    let p = split(t);
    if starts_with(t, "np"@) {
        "np "@ + p[1] + " "@ + p[2]
    } else {
        "new password "@ + p[2] + " "@ + p[3]
    }
}

pub open spec fn inline_cp(t: Seq<char>) -> bool {
    (starts_with(t, "cp"@) || starts_with(t, "copy"@)) && split(t).len() == 2
}

pub open spec fn inline_rm(t: Seq<char>) -> bool {
    (starts_with(t, "rm"@) || starts_with(t, "del"@) || starts_with(t, "rem"@)) && split(t).len() == 2
}

/// The plain commands (those that send nothing or a fixed request).
pub open spec fn plain_client_action(t: Seq<char>, res: ClientAction) -> bool {
    if t == "help"@ {
        res is Help
    } else if t == "list"@ || t == "lp"@ {
        res is List
    } else if t == "new password"@ || t == "np"@ {
        res is AskPassword
    } else if t == "show id"@ || t == "show"@ {
        res is Show
    } else if t == "get configuration"@ || t == "gc"@ {
        res is GetConfiguration
    } else if t == "author"@ || t == "lpm"@ {
        res is Author
    } else if t == "exit"@ || t == "wq"@ || t == "q"@ {
        res is Exit
    } else if t == "clear"@ {
        res is Clear
    } else if t.len() == 0 {
        res is Nothing
    } else {
        res is Invalid
    }
}

/// Classifies a line typed at the client's prompt.
pub fn classify_input(input: &str) -> (res: ClientAction)
    ensures
        ({
            let t = trim(input@);
            if inline_np(t) {
                res is SendNewPassword && res->SendNewPassword_0@ == np_request(t)
            } else if inline_cp(t) {
                res is SendCopy && res->SendCopy_0@ == "cp "@ + split(t)[1]
            } else if inline_rm(t) {
                res is SendRemove && res->SendRemove_0@ == "rm "@ + split(t)[1]
            } else {
                plain_client_action(t, res)
            }
        }),
{
    let c = chars_of(input);
    let t = trim_chars(&c);
    let p = split_chars(&t);
    let n = p.len();
    assert(forall|k: int| 0 <= k < n ==> p@[k]@ == split(t@)[k]);
    if (starts_with_str(&t, "np") && n == 3) || (starts_with_str(&t, "new password") && n == 4) {
        let space = chars_of(" ");
        let request = if starts_with_str(&t, "np") {
            let a = concat_chars(&chars_of("np "), &p[1]);
            let b = concat_chars(&a, &space);
            concat_chars(&b, &p[2])
        } else {
            let a = concat_chars(&chars_of("new password "), &p[2]);
            let b = concat_chars(&a, &space);
            concat_chars(&b, &p[3])
        };
        return ClientAction::SendNewPassword(string_from(&request));
    }
    if (starts_with_str(&t, "cp") || starts_with_str(&t, "copy")) && n == 2 {
        let request = concat_chars(&chars_of("cp "), &p[1]);
        return ClientAction::SendCopy(string_from(&request));
    }
    if (starts_with_str(&t, "rm") || starts_with_str(&t, "del") || starts_with_str(&t, "rem")) && n == 2 {
        let request = concat_chars(&chars_of("rm "), &p[1]);
        return ClientAction::SendRemove(string_from(&request));
    }
    if eq_str(&t, "help") {
        ClientAction::Help
    } else if eq_str(&t, "list") || eq_str(&t, "lp") {
        ClientAction::List
    } else if eq_str(&t, "new password") || eq_str(&t, "np") {
        ClientAction::AskPassword
    } else if eq_str(&t, "show id") || eq_str(&t, "show") {
        ClientAction::Show
    } else if eq_str(&t, "get configuration") || eq_str(&t, "gc") {
        ClientAction::GetConfiguration
    } else if eq_str(&t, "author") || eq_str(&t, "lpm") {
        ClientAction::Author
    } else if eq_str(&t, "exit") || eq_str(&t, "wq") || eq_str(&t, "q") {
        ClientAction::Exit
    } else if eq_str(&t, "clear") {
        ClientAction::Clear
    } else if t.len() == 0 {
        ClientAction::Nothing
    } else {
        ClientAction::Invalid
    }
}

/// The request for an interactive new password: `np ID VALUE` from the two
/// lines typed, each trimmed.
pub fn ask_password(id_line: &str, value_line: &str) -> (res: String)
    ensures
        res@ == "np "@ + trim(id_line@) + " "@ + trim(value_line@),
{
    let id = trim_chars(&chars_of(id_line));
    let value = trim_chars(&chars_of(value_line));
    let a = concat_chars(&chars_of("np "), &id);
    let b = concat_chars(&a, &chars_of(" "));
    let c = concat_chars(&b, &value);
    string_from(&c)
}

/// The bytes of `reused`, the server's refusal of a duplicate identifier.
pub open spec fn reused_message() -> Seq<u8> {
    seq![114u8, 101u8, 117u8, 115u8, 101u8, 100u8]
}

/// The bytes of `empty`, the server's answer where nothing is stored.
pub open spec fn empty_message() -> Seq<u8> {
    seq![101u8, 109u8, 112u8, 116u8, 121u8]
}

/// Whether the reply to a new password reports a duplicate identifier.
pub fn response_np(message: &[u8]) -> (reused: bool)
    ensures
        reused == (message@ == reused_message()),
{
    let reused: [u8; 6] = [114, 101, 117, 115, 101, 100];
    assert(reused@ =~= reused_message());
    bytes_eq(message, reused.as_slice())
}

/// Whether a reply is the `empty` marker.
pub fn is_empty_marker(message: &[u8]) -> (res: bool)
    ensures
        res == (message@ == empty_message()),
{
    let empty: [u8; 5] = [101, 109, 112, 116, 121];
    assert(empty@ =~= empty_message());
    bytes_eq(message, empty.as_slice())
}

/// The password to copy from the reply to `cp ID`; `None` where the server
/// answered `empty` (no such identifier).
pub fn response_cp(message: &[u8]) -> (res: Option<String>)
    requires
        valid_utf8(message@),
    ensures
        res is None <==> message@ == empty_message(),
        res is Some ==> res.unwrap()@ == decode_utf8(message@),
{
    let message_string = string_from_utf8(message);
    if is_empty_marker(message) {
        None
    } else {
        match message_string {
            Some(s) => Some(s),
            None => None,
        }
    }
}

/// `bincode::deserialize` of a `u32` (the block count): four bytes, little
/// endian; it fails exactly when fewer than four bytes are given.
#[verifier::external_body]
fn bincode_u32(bytes: &[u8]) -> (res: Option<u32>)
    ensures
        res is Some <==> bytes@.len() >= 4,
        res is Some ==> res.unwrap() == spec_u32_from_le_bytes(bytes@.take(4)),
{
    bincode::deserialize::<u32>(bytes).ok()
}

/// The number of blocks the listing that follows is split into.
pub fn block_count(blocks_bytes: &[u8]) -> (res: u32)
    requires
        blocks_bytes@.len() >= 4,
    ensures
        res == spec_u32_from_le_bytes(blocks_bytes@.take(4)),
{
    match bincode_u32(blocks_bytes) {
        Some(v) => v,
        None => {
            assert(false);
            0
        },
    }
}

/// The bytes of `correct`, the server's answer to the right master password.
pub open spec fn correct_message() -> Seq<u8> {
    seq![99u8, 111u8, 114u8, 114u8, 101u8, 99u8, 116u8]
}

/// Whether the server let the client in: its reply is exactly `correct`.
pub fn access_granted(reply: &[u8]) -> (res: bool)
    requires
        valid_utf8(reply@),
    ensures
        res == (reply@ == correct_message()),
{
    let correct: [u8; 7] = [99, 111, 114, 114, 101, 99, 116];
    assert(correct@ =~= correct_message());
    bytes_eq(reply, correct.as_slice())
}

/// The encoded listing recomposed from the blocks it was sent in, in order.
pub fn join_blocks(blocks: &Vec<Vec<u8>>) -> (res: Vec<u8>)
    ensures
        res@ == blocks.deep_view().flatten(),
{
    let ghost dv = blocks.deep_view();
    let mut password_data: Vec<u8> = Vec::new();
    let n = blocks.len();
    assert(dv.take(0) =~= Seq::<Seq<u8>>::empty());
    for i in 0..n
        invariant
            n == dv.len(),
            dv == blocks.deep_view(),
            password_data@ == dv.take(i as int).flatten(),
    {
        let block = &blocks[i];
        let m = block.len();
        let ghost before = password_data@;
        for j in 0..m
            invariant
                m == block@.len(),
                password_data@ == before + block@.take(j as int),
        {
            password_data.push(block[j]);
            assert(block@.take(j + 1) =~= block@.take(j as int).push(block@[j as int]));
        }
        assert(block@.take(m as int) =~= block@);
        proof {
            assert(dv.take(i + 1) =~= dv.take(i as int).push(dv[i as int]));
            dv.take(i as int).lemma_flatten_push(dv[i as int]);
        }
    }
    assert(dv.take(n as int) =~= dv);
    password_data
}

/// The records a recomposed listing holds (the unique list encoded at its front).
pub open spec fn listed_entries(bytes: Seq<u8>) -> Seq<Entry> {
    choose|es: Seq<Entry>| parses_as(bytes, es)
}

/// The table a listing shows: identifiers and values (`lp`) or identifiers only
/// (`show`).
pub open spec fn listing_table(es: Seq<Entry>, values: bool) -> Seq<char> {
    if values {
        rounded_table_text(lp_header(), lp_rows(es))
    } else {
        rounded_table_text(show_header(), show_rows(es))
    }
}

/// The table for a listing received in blocks; `None` where the recomposed bytes
/// hold no encoded list of passwords.
pub fn listing_text(blocks: &Vec<Vec<u8>>, values: bool) -> (res: Option<String>)
    ensures
        res is Some <==> parseable(blocks.deep_view().flatten()),
        res is Some ==> res.unwrap()@ == listing_table(listed_entries(blocks.deep_view().flatten()), values),
{
    let password_data = join_blocks(blocks);
    match deserialize_passwords(&password_data) {
        None => None,
        Some(passfile_data) => {
            proof {
                let es = listed_entries(password_data@);
                assert(parses_as(password_data@, passfile_data.deep_view()));
                assert(es == passfile_data.deep_view());
            }
            if values {
                Some(password_table(&passfile_data))
            } else {
                Some(id_table(&passfile_data))
            }
        },
    }
}

} // verus!
