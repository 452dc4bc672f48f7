//! The password-store commands: adding (`np`), removing (`rm`), copying and
//! listing passwords, the help, configuration and author tables, and saving.
use vstd::prelude::*;
use rand::Rng;
use crate::text::{lemma_differs_early, lemma_trim_prefix_of, is_ws, lemma_trim_unchanged, lemma_split_at_space, lemma_split_no_space, lemma_trim_idempotent, concat_chars, trim, split, starts_with, chars_of, chars_eq, eq_str, trim_chars, split_chars, starts_with_str, string_from};
use crate::serde::{Entry, PasswordData, encode_passwords, serialize_passwords};
use crate::crypto::{NONCE_LEN, P_MAX, passfile_plaintext, sealed_passfile, encrypt};
use crate::config::ConfigFile;
use crate::text::{decimal, decimal_string};
use crate::table::{rounded_table, rounded_wrapped_table, rounded_left_table, rounded_left_wrapped_table};
use crate::table::{rounded_table_text, rounded_wrapped_table_text, rounded_left_table_text, rounded_left_wrapped_table_text};

verus! {

/// Why `np` added no password.
#[derive(Clone, Copy, Debug, PartialEq, Eq, Structural)]
pub enum NpError {
    /// The arguments were not `np ID VALUE` or `new password ID VALUE`.
    Usage,
    /// A password with that identifier is already stored.
    Duplicate,
}

/// Why `copy` found no password.
#[derive(Clone, Copy, Debug, PartialEq, Eq, Structural)]
pub enum CopyError {
    /// The input was not the command followed by exactly one identifier.
    InvalidIdentifier,
    /// No stored password has that identifier.
    NoSuchIdentifier,
}

/// Some stored password has identifier `id`.
pub open spec fn has_id(vault: Seq<Entry>, id: Seq<char>) -> bool {
    exists|i: int| 0 <= i < vault.len() && vault[i].0 == id
}

/// No two stored passwords share an identifier.
pub open spec fn unique_ids(vault: Seq<Entry>) -> bool {
    forall|i: int, j: int| 0 <= i < vault.len() && 0 <= j < vault.len() && i != j ==> vault[i].0 != vault[j].0
}

/// The characters that random passwords are drawn from (the first 93 of them).
pub open spec fn password_charset() -> Seq<char> {
    seq![
        'a', 'b', 'c', 'd', 'e', 'f', 'g', 'h', 'i', 'j', 'k', 'l',
        'm', 'n', 'o', 'p', 'q', 'r', 's', 't', 'u', 'v', 'w', 'x',
        'y', 'z', 'A', 'B', 'C', 'D', 'E', 'F', 'G', 'H', 'I', 'J',
        'K', 'L', 'M', 'N', 'O', 'P', 'Q', 'R', 'S', 'T', 'U', 'V',
        'W', 'X', 'Y', 'Z', '0', '1', '2', '3', '4', '5', '6', '7',
        '8', '9', '!', '@', '#', '$', '%', '^', '&', '*', '(', ')',
        '-', '_', '+', '=', '~', '`', '[', ']', '{', '}', '|', ':',
        ';', '"', '\'', '<', '>', ',', '.', '?', '/', ' ',
    ]
}

/// A password as `random_password` makes them: 30 characters, each one of the
/// first 93 characters of `password_charset`.
pub open spec fn generated_password(p: Seq<char>) -> bool {
    &&& p.len() == 30
    &&& forall|i: int| 0 <= i < 30 ==> in_charset(#[trigger] p[i])
}

/// `c` is one of the first 93 characters of `password_charset`.
pub open spec fn in_charset(c: char) -> bool {
    exists|k: int| 0 <= k < 93 && password_charset()[k] == c
}

/// `np` in the form that asks for identifier and value interactively.
pub open spec fn np_is_interactive(input: Seq<char>) -> bool {
    input == "np"@ || input == "new password"@
}

/// The inline forms must have exactly 3 (`np`) or 4 (`new password`) pieces.
pub open spec fn np_usage_error(input: Seq<char>) -> bool {
    let t = trim(input);
    let n = split(t).len();
    (n != 3 && starts_with(t, "np"@)) || (n != 4 && starts_with(t, "new password"@))
}

/// The inputs on which `np` does not index past the pieces of its input.
pub open spec fn np_in_bounds(input: Seq<char>) -> bool {
    np_usage_error(input) || if starts_with(input, "np"@) {
        split(input).len() >= 3
    } else {
        split(input).len() >= 4
    }
}

/// The identifier and value that an inline `np` names.
pub open spec fn np_args(input: Seq<char>) -> (Seq<char>, Seq<char>) {
    let p = split(input);
    if starts_with(input, "np"@) {
        (p[1], p[2])
    } else {
        (p[2], p[3])
    }
}

/// A value of `r` or `random` asks for a random password.
pub open spec fn is_random_request(v: Seq<char>) -> bool {
    v == "r"@ || v == "random"@
}

pub open spec fn resolve_value(v: Seq<char>, random: Seq<char>) -> Seq<char> {
    if is_random_request(v) {
        random
    } else {
        v
    }
}

/// The store after an inline `np`, where `random` is the random password drawn.
pub open spec fn np_outcome(vault: Seq<Entry>, input: Seq<char>, random: Seq<char>) -> Result<
    Seq<Entry>,
    NpError,
> {
    if np_usage_error(input) {
        Err(NpError::Usage)
    } else {
        let (id, v) = np_args(input);
        if has_id(vault, id) {
            Err(NpError::Duplicate)
        } else {
            Ok(vault.push((id, resolve_value(v, random))))
        }
    }
}

/// `rm` removes the password named by the second piece of its trimmed input.
pub open spec fn rm_requested_id(input: Seq<char>) -> Seq<char> {
    split(trim(input))[1]
}

/// `rm`'s loop after its first `k` steps: it walks the starting list by index and
/// removes the element at that same index of the current list whenever the
/// starting list's element there has the identifier. Returns the current list, whether
/// anything was removed, and whether every removal was in bounds.
pub open spec fn rm_run(orig: Seq<Entry>, id: Seq<char>, k: nat) -> (Seq<Entry>, bool, bool)
    decreases k,
{
    if k == 0 {
        (orig, false, true)
    } else {
        let (cur, removed, ok) = rm_run(orig, id, (k - 1) as nat);
        let i = k - 1;
        if orig[i].0 == id {
            if i < cur.len() {
                (cur.remove(i), true, ok)
            } else {
                (cur, true, false)
            }
        } else {
            (cur, removed, ok)
        }
    }
}

/// The value of the last stored password with identifier `id`.
pub open spec fn last_value_with_id(vault: Seq<Entry>, id: Seq<char>) -> Option<Seq<char>>
    decreases vault.len(),
{
    if vault.len() == 0 {
        None
    } else if vault.last().0 == id {
        Some(vault.last().1)
    } else {
        last_value_with_id(vault.drop_last(), id)
    }
}

/// What `copy` puts on the clipboard: the input must be the command and one
/// identifier (split on single spaces); the identifier is trimmed.
pub open spec fn copy_outcome(vault: Seq<Entry>, input: Seq<char>) -> Result<Seq<char>, CopyError> {
    let p = split(input);
    if p.len() != 2 {
        Err(CopyError::InvalidIdentifier)
    } else {
        match last_value_with_id(vault, trim(p[1])) {
            Some(v) => Ok(v),
            None => Err(CopyError::NoSuchIdentifier),
        }
    }
}

/// `rand::Rng::gen_range(0..bound)` on `rand::thread_rng()`: a value below `bound`.
#[verifier::external_body]
fn random_below(bound: usize) -> (res: usize)
    requires
        bound > 0,
    ensures
        res < bound,
{
    rand::thread_rng().gen_range(0..bound)
}

/// A random password of 30 characters from `password_charset`.
pub fn random_password() -> (password: String)
    ensures
        generated_password(password@),
{
    let char_candidates: [char; 94] = [
        'a', 'b', 'c', 'd', 'e', 'f', 'g', 'h', 'i', 'j', 'k', 'l',
        'm', 'n', 'o', 'p', 'q', 'r', 's', 't', 'u', 'v', 'w', 'x',
        'y', 'z', 'A', 'B', 'C', 'D', 'E', 'F', 'G', 'H', 'I', 'J',
        'K', 'L', 'M', 'N', 'O', 'P', 'Q', 'R', 'S', 'T', 'U', 'V',
        'W', 'X', 'Y', 'Z', '0', '1', '2', '3', '4', '5', '6', '7',
        '8', '9', '!', '@', '#', '$', '%', '^', '&', '*', '(', ')',
        '-', '_', '+', '=', '~', '`', '[', ']', '{', '}', '|', ':',
        ';', '"', '\'', '<', '>', ',', '.', '?', '/', ' ',
    ];
    assert(char_candidates@ =~= password_charset());
    let mut chosen: Vec<char> = Vec::new();
    for _i in 0..30usize
        invariant
            char_candidates@ == password_charset(),
            chosen@.len() == _i,
            forall|j: int| 0 <= j < _i ==> in_charset(#[trigger] chosen@[j]),
    {
        let ghost old_chosen = chosen@;
        let rand_index = random_below(93);
        chosen.push(char_candidates[rand_index]);
        assert(chosen@[_i as int] == password_charset()[rand_index as int]);
        assert(in_charset(chosen@[_i as int]));
        assert(forall|j: int| 0 <= j < _i ==> chosen@[j] == old_chosen[j]);
    }
    string_from(&chosen)
}

/// Whether a stored password has identifier `id`.
pub fn contains_id(passfile_data: &Vec<PasswordData>, id: &Vec<char>) -> (res: bool)
    ensures
        res == has_id(passfile_data.deep_view(), id@),
{
    let n = passfile_data.len();
    for i in 0..n
        invariant
            n == passfile_data@.len(),
            forall|k: int| 0 <= k < i ==> passfile_data.deep_view()[k].0 != id@,
    {
        let candidate = chars_of(passfile_data[i].id.as_str());
        if chars_eq(&candidate, id) {
            assert(passfile_data.deep_view()[i as int].0 == id@);
            return true;
        }
    }
    false
}

/// The identifier and value of an inline `np`, or `Usage`.
pub fn parse_new_password(input: &str) -> (res: Result<(Vec<char>, Vec<char>), NpError>)
    requires
        np_in_bounds(input@),
    ensures
        np_usage_error(input@) ==> res == Err::<(Vec<char>, Vec<char>), NpError>(NpError::Usage),
        !np_usage_error(input@) ==> res is Ok && (res.unwrap().0@, res.unwrap().1@) == np_args(input@),
{
    let cs = chars_of(input);
    let t = trim_chars(&cs);
    let tparts = split_chars(&t);
    let n = tparts.len();
    if (n != 3 && starts_with_str(&t, "np")) || (n != 4 && starts_with_str(&t, "new password")) {
        return Err(NpError::Usage);
    }
    let parts = split_chars(&cs);
    if starts_with_str(&cs, "np") {
        Ok((parts[1].clone(), parts[2].clone()))
    } else {
        Ok((parts[2].clone(), parts[3].clone()))
    }
}

/// Whether a value asks for a random password.
pub fn random_requested(v: &Vec<char>) -> (res: bool)
    ensures
        res == is_random_request(v@),
{
    eq_str(v, "r") || eq_str(v, "random")
}

proof fn lemma_push_keeps_unique(vault: Seq<Entry>, e: Entry)
    requires
        unique_ids(vault),
        !has_id(vault, e.0),
    ensures
        unique_ids(vault.push(e)),
{
    let v2 = vault.push(e);
    assert forall|i: int, j: int| 0 <= i < v2.len() && 0 <= j < v2.len() && i != j implies v2[i].0
        != v2[j].0 by {
        if i == vault.len() {
            assert(vault[j].0 != e.0);
        } else if j == vault.len() {
            assert(vault[i].0 != e.0);
        }
    }
}

/// A password of the generated shape, to witness that one exists.
pub open spec fn sample_password() -> Seq<char> {
    Seq::new(30, |i: int| 'a')
}

pub proof fn lemma_sample_password()
    ensures
        generated_password(sample_password()),
{
    assert forall|i: int| 0 <= i < 30 implies in_charset(#[trigger] sample_password()[i]) by {
        assert(sample_password()[i] == password_charset()[0]);
    }
}

/// `np ID VALUE` with a fresh identifier adds exactly `(ID, VALUE)`, the value
/// as typed; only a value of `r` or `random` is replaced by the random password.
/// An identifier already stored is refused as a duplicate.
/// (Identifier and value hold no space, and the value ends in a character other
/// than white space, so that the line splits into these three pieces.)
pub proof fn law_np_inline_adds(vault: Seq<Entry>, id: Seq<char>, value: Seq<char>, random: Seq<char>)
    requires
        forall|i: int| 0 <= i < id.len() ==> id[i] != ' ',
        forall|i: int| 0 <= i < value.len() ==> value[i] != ' ',
        value.len() > 0,
        !is_ws(value.last()),
    ensures
        !has_id(vault, id) ==> np_outcome(vault, "np "@ + id + " "@ + value, random) == Ok::<Seq<Entry>, NpError>(
            vault.push((id, if value == "r"@ || value == "random"@ { random } else { value })),
        ),
        has_id(vault, id) ==> np_outcome(vault, "np "@ + id + " "@ + value, random) == Err::<Seq<Entry>, NpError>(
            NpError::Duplicate,
        ),
{
    reveal_strlit("np ");
    reveal_strlit(" ");
    reveal_strlit("np");
    reveal_strlit("new password");
    let input = "np "@ + id + " "@ + value;
    let rest = id + seq![' '] + value;
    assert(input =~= "np"@ + seq![' '] + rest);
    lemma_split_at_space("np"@, rest);
    lemma_split_at_space(id, value);
    lemma_split_no_space("np"@);
    lemma_split_no_space(id);
    lemma_split_no_space(value);
    assert(split(input) =~= seq!["np"@, id, value]);
    assert(input.last() == value.last());
    lemma_trim_unchanged(input);
    assert(input.take(2) =~= "np"@);
    assert(!starts_with(input, "new password"@)) by {
        if input.len() >= 12 {
            assert(input.take(12)[1] != "new password"@[1]);
        }
    }
    assert(!np_usage_error(input));
    assert(np_args(input) == (id, value));
}

/// `np ID` without a value is a usage error and adds nothing.
pub proof fn law_np_missing_value(vault: Seq<Entry>, id: Seq<char>, random: Seq<char>)
    requires
        id.len() > 0,
        forall|i: int| 0 <= i < id.len() ==> id[i] != ' ',
        !is_ws(id.last()),
    ensures
        np_outcome(vault, "np "@ + id, random) == Err::<Seq<Entry>, NpError>(NpError::Usage),
{
    reveal_strlit("np ");
    reveal_strlit(" ");
    reveal_strlit("np");
    let input = "np "@ + id;
    assert(input =~= "np"@ + seq![' '] + id);
    lemma_split_at_space("np"@, id);
    lemma_split_no_space("np"@);
    lemma_split_no_space(id);
    assert(split(input) =~= seq!["np"@, id]);
    assert(input.last() == id.last());
    lemma_trim_unchanged(input);
    assert(input.take(2) =~= "np"@);
}

/// `new password ID VALUE` with a fresh identifier adds exactly `(ID, VALUE)`,
/// the value as typed; only a value of `r` or `random` is replaced by the random
/// password. An identifier already stored is refused as a duplicate.
pub proof fn law_np_inline_long_adds(vault: Seq<Entry>, id: Seq<char>, value: Seq<char>, random: Seq<char>)
    requires
        forall|i: int| 0 <= i < id.len() ==> id[i] != ' ',
        forall|i: int| 0 <= i < value.len() ==> value[i] != ' ',
        value.len() > 0,
        !is_ws(value.last()),
    ensures
        !has_id(vault, id) ==> np_outcome(vault, "new password "@ + id + " "@ + value, random) == Ok::<Seq<Entry>, NpError>(
            vault.push((id, if value == "r"@ || value == "random"@ { random } else { value })),
        ),
        has_id(vault, id) ==> np_outcome(vault, "new password "@ + id + " "@ + value, random) == Err::<Seq<Entry>, NpError>(
            NpError::Duplicate,
        ),
{
    reveal_strlit("new password ");
    reveal_strlit(" ");
    reveal_strlit("new");
    reveal_strlit("password");
    reveal_strlit("np");
    reveal_strlit("new password");
    let input = "new password "@ + id + " "@ + value;
    let rest = id + seq![' '] + value;
    let tail = "password"@ + seq![' '] + rest;
    assert(input =~= "new"@ + seq![' '] + tail);
    lemma_split_at_space("new"@, tail);
    lemma_split_at_space("password"@, rest);
    lemma_split_at_space(id, value);
    lemma_split_no_space("new"@);
    lemma_split_no_space("password"@);
    lemma_split_no_space(id);
    lemma_split_no_space(value);
    assert(split(input) =~= seq!["new"@, "password"@, id, value]);
    assert(input.last() == value.last());
    lemma_trim_unchanged(input);
    assert(input.take(12) =~= "new password"@);
    assert(!starts_with(input, "np"@)) by {
        assert(input.take(2)[1] != "np"@[1]);
    }
    assert(!np_usage_error(input));
    assert(np_args(input) == (id, value));
}

/// Adds a password from an inline `np ID VALUE` or `new password ID VALUE`,
/// drawing a random password where the value is `r` or `random`. The caller saves
/// the store when it returns `Ok`.
pub fn np(passfile_data: &mut Vec<PasswordData>, input: &str) -> (res: Result<(), NpError>)
    requires
        !np_is_interactive(input@),
        np_in_bounds(input@),
    ensures
        exists|random: Seq<char>|
            generated_password(random) && match np_outcome(old(passfile_data).deep_view(), input@, random) {
                Ok(v) => res is Ok && final(passfile_data).deep_view() == v,
                Err(e) => res == Err::<(), NpError>(e) && final(passfile_data).deep_view() == old(passfile_data).deep_view(),
            },
        unique_ids(old(passfile_data).deep_view()) ==> unique_ids(final(passfile_data).deep_view()),
        !np_usage_error(input@) && !has_id(old(passfile_data).deep_view(), np_args(input@).0) && np_args(input@).1
            != "r"@ && np_args(input@).1 != "random"@ ==> res is Ok && final(passfile_data).deep_view()
            == old(passfile_data).deep_view().push(np_args(input@)),
{
    let ghost old_vault = passfile_data.deep_view();
    proof {
        lemma_sample_password();
    }
    match parse_new_password(input) {
        Err(e) => {
            assert(np_outcome(old_vault, input@, sample_password()) == Err::<Seq<Entry>, NpError>(e));
            Err(e)
        },
        Ok((id, v)) => {
            let ghost mut random = sample_password();
            let value: Vec<char> = if random_requested(&v) {
                let generated = random_password();
                proof {
                    random = generated@;
                }
                chars_of(generated.as_str())
            } else {
                v
            };
            assert(value@ == resolve_value(v@, random));
            if contains_id(passfile_data, &id) {
                assert(np_outcome(old_vault, input@, random) == Err::<Seq<Entry>, NpError>(NpError::Duplicate));
                return Err(NpError::Duplicate);
            }
            let entry = PasswordData::new(string_from(&id), string_from(&value));
            passfile_data.push(entry);
            assert(passfile_data.deep_view() =~= old_vault.push((id@, value@))) by {
                assert forall|k: int| 0 <= k < old_vault.len() implies passfile_data.deep_view()[k]
                    == old_vault[k] by {
                    assert(passfile_data@[k] == old(passfile_data)@[k]);
                }
            }
            proof {
                if unique_ids(old_vault) {
                    lemma_push_keeps_unique(old_vault, (id@, value@));
                }
            }
            assert(np_outcome(old_vault, input@, random) == Ok::<Seq<Entry>, NpError>(passfile_data.deep_view()));
            Ok(())
        },
    }
}

proof fn lemma_rm_ok_prefix(orig: Seq<Entry>, id: Seq<char>, j: nat, k: nat)
    requires
        j <= k,
        rm_run(orig, id, k).2,
    ensures
        rm_run(orig, id, j).2,
    decreases k,
{
    if j < k {
        lemma_rm_ok_prefix(orig, id, j, (k - 1) as nat);
    }
}

proof fn lemma_rm_run_unique(v: Seq<Entry>, id: Seq<char>, k: nat)
    requires
        unique_ids(v),
        k <= v.len(),
    ensures
        (forall|i: int| 0 <= i < k ==> v[i].0 != id) ==> rm_run(v, id, k) == (v, false, true),
        forall|m: int| 0 <= m < k && v[m].0 == id ==> rm_run(v, id, k) == (v.remove(m), true, true),
    decreases k,
{
    if k > 0 {
        lemma_rm_run_unique(v, id, (k - 1) as nat);
        let i = k - 1;
        if v[i].0 == id {
            assert forall|j: int| 0 <= j < k - 1 implies v[j].0 != id by {
                assert(v[j].0 != v[i].0);
            }
        }
    }
}

/// With unique identifiers, `rm` removes exactly the password with the requested
/// identifier, and nothing where there is none; it never indexes out of bounds.
pub proof fn law_rm_unique(v: Seq<Entry>, id: Seq<char>)
    requires
        unique_ids(v),
    ensures
        rm_run(v, id, v.len()).2,
        !has_id(v, id) ==> rm_run(v, id, v.len()) == (v, false, true),
        forall|m: int| 0 <= m < v.len() && v[m].0 == id ==> rm_run(v, id, v.len()) == (v.remove(m), true, true),
        unique_ids(rm_run(v, id, v.len()).0),
{
    lemma_rm_run_unique(v, id, v.len());
    if has_id(v, id) {
        let m = choose|m: int| 0 <= m < v.len() && v[m].0 == id;
        let r = v.remove(m);
        assert forall|i: int, j: int| 0 <= i < r.len() && 0 <= j < r.len() && i != j implies r[i].0
            != r[j].0 by {
            let i2 = if i < m { i } else { i + 1 };
            let j2 = if j < m { j } else { j + 1 };
            assert(r[i] == v[i2]);
            assert(r[j] == v[j2]);
        }
    }
}

/// Removing what `np` just added restores the store: adding a password with a
/// fresh identifier and then removing that identifier gives back the store as it was.
pub proof fn law_remove_undoes_add(v: Seq<Entry>, id: Seq<char>, value: Seq<char>)
    requires
        unique_ids(v),
        !has_id(v, id),
    ensures
        rm_run(v.push((id, value)), id, v.len() + 1) == (v, true, true),
{
    lemma_push_keeps_unique(v, (id, value));
    let w = v.push((id, value));
    law_rm_unique(w, id);
    assert(w.remove(v.len() as int) =~= v);
}

/// A password that `np` added is what `copy` then finds under its identifier.
pub proof fn law_copy_finds_added(v: Seq<Entry>, id: Seq<char>, value: Seq<char>)
    ensures
        last_value_with_id(v.push((id, value)), id) == Some(value),
{
    assert(v.push((id, value)).last() == (id, value));
}

/// `rm ID` names `ID` itself: for an identifier without spaces that ends in a
/// character other than white space, the requested identifier is exactly it.
pub proof fn law_rm_requests_named_id(id: Seq<char>)
    requires
        id.len() > 0,
        forall|i: int| 0 <= i < id.len() ==> id[i] != ' ',
        !is_ws(id.last()),
    ensures
        split(trim("rm "@ + id)).len() == 2,
        rm_requested_id("rm "@ + id) == id,
{
    reveal_strlit("rm ");
    reveal_strlit("rm");
    let input = "rm "@ + id;
    assert(input =~= "rm"@ + seq![' '] + id);
    lemma_trim_unchanged(input);
    lemma_split_at_space("rm"@, id);
    lemma_split_no_space("rm"@);
    lemma_split_no_space(id);
    assert(split(input) =~= seq!["rm"@, id]);
}

/// With unique identifiers, `rm` on an input whose trimmed second piece is the
/// identifier of a stored password (same characters, case kept) removes that
/// password and reports a removal; where no stored password has that identifier
/// the store stays as it was and no removal is reported.
pub proof fn law_rm_removes_named(v: Seq<Entry>, input: Seq<char>)
    requires
        unique_ids(v),
        split(trim(input)).len() >= 2,
    ensures
        forall|m: int|
            0 <= m < v.len() && #[trigger] v[m].0 == split(trim(input))[1] ==> rm_run(
                v,
                rm_requested_id(input),
                v.len(),
            ) == (v.remove(m), true, true),
        !has_id(v, split(trim(input))[1]) ==> rm_run(v, rm_requested_id(input), v.len()) == (v, false, true),
{
    law_rm_unique(v, split(trim(input))[1]);
}

/// Removes the password whose identifier is the second piece of the trimmed input;
/// returns whether one was removed.
pub fn rm(passfile_data: &mut Vec<PasswordData>, input: &str) -> (removed: bool)
    requires
        split(trim(input@)).len() >= 2,
        rm_run(old(passfile_data).deep_view(), rm_requested_id(input@), old(passfile_data)@.len()).2,
    ensures
        final(passfile_data).deep_view() == rm_run(
            old(passfile_data).deep_view(),
            rm_requested_id(input@),
            old(passfile_data)@.len(),
        ).0,
        removed == rm_run(old(passfile_data).deep_view(), rm_requested_id(input@), old(passfile_data)@.len()).1,
        unique_ids(old(passfile_data).deep_view()) ==> unique_ids(final(passfile_data).deep_view()),
        unique_ids(old(passfile_data).deep_view()) ==> forall|m: int|
            0 <= m < old(passfile_data)@.len() && #[trigger] old(passfile_data).deep_view()[m].0 == split(
                trim(input@),
            )[1] ==> removed && final(passfile_data).deep_view() == old(passfile_data).deep_view().remove(m),
        unique_ids(old(passfile_data).deep_view()) && !has_id(old(passfile_data).deep_view(), split(trim(input@))[1])
            ==> !removed && final(passfile_data).deep_view() == old(passfile_data).deep_view(),
{
    let ghost orig = passfile_data.deep_view();
    let cs = chars_of(input);
    let t = trim_chars(&cs);
    let parts = split_chars(&t);
    let requested = parts[1].clone();
    let ghost id = rm_requested_id(input@);
    assert(requested@ == id);
    let n = passfile_data.len();
    let mut ids: Vec<Vec<char>> = Vec::new();
    for k in 0..n
        invariant
            n == passfile_data@.len(),
            orig == passfile_data.deep_view(),
            ids@.len() == k,
            forall|j: int| 0 <= j < k ==> (#[trigger] ids@[j])@ == orig[j].0,
    {
        ids.push(chars_of(passfile_data[k].id.as_str()));
    }
    let mut removed = false;
    for counter in 0..n
        invariant
            n == orig.len(),
            ids@.len() == n,
            forall|j: int| 0 <= j < n ==> (#[trigger] ids@[j])@ == orig[j].0,
            requested@ == id,
            rm_run(orig, id, n as nat).2,
            (passfile_data.deep_view(), removed, true) == rm_run(orig, id, counter as nat),
    {
        if chars_eq(&ids[counter], &requested) {
            proof {
                lemma_rm_ok_prefix(orig, id, (counter + 1) as nat, n as nat);
            }
            let ghost before = passfile_data@;
            let ghost before_dv = passfile_data.deep_view();
            passfile_data.remove(counter);
            assert(passfile_data.deep_view() =~= before_dv.remove(counter as int)) by {
                assert forall|j: int| 0 <= j < passfile_data@.len() implies passfile_data.deep_view()[j]
                    == before_dv.remove(counter as int)[j] by {
                    if j < counter {
                        assert(passfile_data@[j] == before[j]);
                    } else {
                        assert(passfile_data@[j] == before[j + 1]);
                    }
                }
            }
            removed = true;
        }
    }
    proof {
        if unique_ids(orig) {
            law_rm_removes_named(orig, input@);
            law_rm_unique(orig, id);
        }
    }
    removed
}

/// The search that `copy` makes finds nothing exactly when no stored password at
/// any index has the identifier, and otherwise the value of the last one that has it.
pub proof fn law_last_value_with_id(vault: Seq<Entry>, id: Seq<char>)
    ensures
        last_value_with_id(vault, id) is None <==> !has_id(vault, id),
        forall|j: int|
            0 <= j < vault.len() && #[trigger] vault[j].0 == id && (forall|k: int|
                j < k < vault.len() ==> vault[k].0 != id) ==> last_value_with_id(vault, id) == Some(
                vault[j].1,
            ),
    decreases vault.len(),
{
    if vault.len() > 0 {
        let d = vault.drop_last();
        let n = vault.len() - 1;
        law_last_value_with_id(d, id);
        if vault.last().0 == id {
            assert(vault[n].0 == id);
            assert forall|j: int|
                0 <= j < vault.len() && #[trigger] vault[j].0 == id && (forall|k: int|
                    j < k < vault.len() ==> vault[k].0 != id) implies last_value_with_id(vault, id) == Some(
                vault[j].1,
            ) by {
                if j < n {
                    assert(vault[n].0 != id);
                }
            }
        } else {
            assert(has_id(vault, id) ==> has_id(d, id)) by {
                if has_id(vault, id) {
                    let i = choose|i: int| 0 <= i < vault.len() && vault[i].0 == id;
                    assert(i < n);
                    assert(d[i] == vault[i]);
                }
            }
            assert(has_id(d, id) ==> has_id(vault, id)) by {
                if has_id(d, id) {
                    let i = choose|i: int| 0 <= i < d.len() && d[i].0 == id;
                    assert(d[i] == vault[i]);
                }
            }
            assert forall|j: int|
                0 <= j < vault.len() && #[trigger] vault[j].0 == id && (forall|k: int|
                    j < k < vault.len() ==> vault[k].0 != id) implies last_value_with_id(vault, id) == Some(
                vault[j].1,
            ) by {
                assert(j < n);
                assert(d[j] == vault[j]);
                assert forall|k: int| j < k < d.len() implies d[k].0 != id by {
                    assert(d[k] == vault[k]);
                }
            }
        }
    }
}

/// `copy` on the command and one identifier gives the value of the last stored
/// password with the trimmed identifier, at whatever index it stands, and
/// `NoSuchIdentifier` only where no stored password has it; any other number of
/// pieces gives `InvalidIdentifier`.
pub proof fn law_copy_outcome(vault: Seq<Entry>, input: Seq<char>)
    ensures
        split(input).len() != 2 ==> copy_outcome(vault, input) == Err::<Seq<char>, CopyError>(
            CopyError::InvalidIdentifier,
        ),
        split(input).len() == 2 ==> (copy_outcome(vault, input) == Err::<Seq<char>, CopyError>(
            CopyError::NoSuchIdentifier,
        ) <==> !has_id(vault, trim(split(input)[1]))),
        split(input).len() == 2 ==> forall|j: int|
            0 <= j < vault.len() && #[trigger] vault[j].0 == trim(split(input)[1]) && (forall|k: int|
                j < k < vault.len() ==> vault[k].0 != trim(split(input)[1])) ==> copy_outcome(vault, input)
                == Ok::<Seq<char>, CopyError>(vault[j].1),
{
    if split(input).len() == 2 {
        law_last_value_with_id(vault, trim(split(input)[1]));
    }
}

/// The value to put on the clipboard for `cp ID` / `copy ID`: that of the last
/// password with the (trimmed) identifier.
pub fn copy(passfile_data: &Vec<PasswordData>, input: &str) -> (res: Result<String, CopyError>)
    ensures
        match res {
            Ok(s) => copy_outcome(passfile_data.deep_view(), input@) == Ok::<Seq<char>, CopyError>(s@),
            Err(e) => copy_outcome(passfile_data.deep_view(), input@) == Err::<Seq<char>, CopyError>(e),
        },
        split(input@).len() != 2 ==> res == Err::<String, CopyError>(CopyError::InvalidIdentifier),
        split(input@).len() == 2 ==> (res == Err::<String, CopyError>(CopyError::NoSuchIdentifier) <==> !has_id(
            passfile_data.deep_view(),
            trim(split(input@)[1]),
        )),
        split(input@).len() == 2 ==> forall|j: int|
            0 <= j < passfile_data@.len() && #[trigger] passfile_data.deep_view()[j].0 == trim(split(input@)[1])
                && (forall|k: int|
                j < k < passfile_data@.len() ==> passfile_data.deep_view()[k].0 != trim(split(input@)[1]))
                ==> res is Ok && res.unwrap()@ == passfile_data.deep_view()[j].1,
{
    proof {
        law_copy_outcome(passfile_data.deep_view(), input@);
    }
    let cs = chars_of(input);
    let input_splitted = split_chars(&cs);
    if input_splitted.len() != 2 {
        return Err(CopyError::InvalidIdentifier);
    }
    let identifier = trim_chars(&input_splitted[1]);
    assert(input_splitted[1]@ == split(input@)[1]);
    let ghost dv = passfile_data.deep_view();
    let n = passfile_data.len();
    let mut found: Option<usize> = None;
    assert(dv.take(0) =~= Seq::<Entry>::empty());
    for i in 0..n
        invariant
            n == dv.len(),
            dv == passfile_data.deep_view(),
            match found {
                Some(j) => j < i && last_value_with_id(dv.take(i as int), identifier@) == Some(dv[j as int].1),
                None => last_value_with_id(dv.take(i as int), identifier@) is None,
            },
    {
        assert(dv.take(i + 1).drop_last() =~= dv.take(i as int));
        assert(dv.take(i + 1).last() == dv[i as int]);
        let candidate = chars_of(passfile_data[i].id.as_str());
        if chars_eq(&candidate, &identifier) {
            found = Some(i);
        }
    }
    assert(dv.take(n as int) =~= dv);
    match found {
        Some(j) => {
            let v = passfile_data[j].value.clone();
            assert(v@ == dv[j as int].1);
            Ok(v)
        },
        None => Err(CopyError::NoSuchIdentifier),
    }
}

/// The bytes to write to the passfile: the store encoded and sealed under `key`;
/// `None` exactly where the encoding is longer than AES-GCM seals. What
/// `read_passfile` reads back from them under the same key is this store.
pub fn save(passfile_data: &Vec<PasswordData>, key: &Vec<u8>) -> (res: Option<Vec<u8>>)
    requires
        key@.len() == 32,
    ensures
        res is Some <==> encode_passwords(passfile_data.deep_view()).len() <= P_MAX,
        res is Some ==> res.unwrap()@.len() == NONCE_LEN + encode_passwords(passfile_data.deep_view()).len() + 16,
        res is Some ==> res.unwrap()@ == sealed_passfile(
            key@,
            res.unwrap()@.take(NONCE_LEN as int),
            encode_passwords(passfile_data.deep_view()),
        ),
        res is Some ==> passfile_plaintext(key@, res.unwrap()@) == Some(
            encode_passwords(passfile_data.deep_view()),
        ),
{
    let passfile_data_bytes = serialize_passwords(passfile_data);
    encrypt(key, &passfile_data_bytes)
}

/// A row of two cells.
fn pair_row(a: &str, b: &str) -> (res: Vec<String>)
    ensures
        res.deep_view() == seq![a@, b@],
{
    let mut row: Vec<String> = Vec::new();
    row.push(a.to_owned());
    row.push(b.to_owned());
    assert(row.deep_view() =~= seq![a@, b@]);
    row
}

/// A row of three cells.
fn triple_row(a: String, b: String, c: String) -> (res: Vec<String>)
    ensures
        res.deep_view() == seq![a@, b@, c@],
{
    let ghost (va, vb, vc) = (a@, b@, c@);
    let mut row: Vec<String> = Vec::new();
    row.push(a);
    row.push(b);
    row.push(c);
    assert(row.deep_view() =~= seq![va, vb, vc]);
    row
}

/// Appends a row to a list of rows.
fn push_row(rows: &mut Vec<Vec<String>>, row: Vec<String>)
    ensures
        final(rows).deep_view() == old(rows).deep_view().push(row.deep_view()),
{
    let ghost before = rows@;
    let ghost r = row.deep_view();
    rows.push(row);
    assert(rows.deep_view() =~= old(rows).deep_view().push(r)) by {
        assert forall|k: int| 0 <= k < before.len() implies rows.deep_view()[k] == old(rows).deep_view()[k] by {
            assert(rows@[k] == before[k]);
        }
    }
}

pub open spec fn help_header() -> Seq<Seq<char>> {
    seq!["Command"@, "functionality"@]
}

pub open spec fn help_rows() -> Seq<Seq<Seq<char>>> {
    seq![
        seq!["help"@, "[+] prints this help"@],
        seq!["list | lp"@, "[+] prints all saved passwords"@],
        seq!["new password | np"@, "[+] save a new password, type r or random in the password input to generate a randow password"@],
        seq!["rm | del | rem"@, "[+] remove a password by the password id as argument"@],
        seq!["copy | cp"@, "[+] copy a password to clipboard by Password Id on list or lp"@],
        seq!["get configuration | gc   "@, "[+] Prints the path of the config file and its content"@],
        seq!["author | lpm"@, "[+] information about the author of the program also known as me"@],
        seq!["exit | wq | q"@, "[+] closes lpm"@],
        seq!["clear"@, "[+] Clear the screen buffer as clear or cls"@]
    ]
}

/// The help table: every command and what it does, wrapped at 50 columns.
pub fn help() -> (res: String)
    ensures
        res@ == rounded_wrapped_table_text(help_header(), help_rows(), 50),
{
    let header = pair_row("Command", "functionality");
    let mut rows: Vec<Vec<String>> = Vec::new();
    push_row(&mut rows, pair_row("help", "[+] prints this help"));
    push_row(&mut rows, pair_row("list | lp", "[+] prints all saved passwords"));
    push_row(&mut rows, pair_row("new password | np", "[+] save a new password, type r or random in the password input to generate a randow password"));
    push_row(&mut rows, pair_row("rm | del | rem", "[+] remove a password by the password id as argument"));
    push_row(&mut rows, pair_row("copy | cp", "[+] copy a password to clipboard by Password Id on list or lp"));
    push_row(&mut rows, pair_row("get configuration | gc   ", "[+] Prints the path of the config file and its content"));
    push_row(&mut rows, pair_row("author | lpm", "[+] information about the author of the program also known as me"));
    push_row(&mut rows, pair_row("exit | wq | q", "[+] closes lpm"));
    push_row(&mut rows, pair_row("clear", "[+] Clear the screen buffer as clear or cls"));
    assert(rows.deep_view() =~= help_rows());
    rounded_wrapped_table(&header, &rows, 50)
}

pub open spec fn author_header() -> Seq<Seq<char>> {
    seq!["Author"@, "github"@]
}

pub open spec fn author_rows() -> Seq<Seq<Seq<char>>> {
    seq![seq!["Letder"@, "https://github.com/Letder40"@]]
}

/// The author table.
pub fn author_table() -> (res: String)
    ensures
        res@ == rounded_left_table_text(author_header(), author_rows()),
{
    let header = pair_row("Author", "github");
    let mut rows: Vec<Vec<String>> = Vec::new();
    push_row(&mut rows, pair_row("Letder", "https://github.com/Letder40"));
    assert(rows.deep_view() =~= author_rows());
    rounded_left_table(&header, &rows)
}

pub open spec fn lp_header() -> Seq<Seq<char>> {
    seq!["#"@, "Id"@, "Password"@]
}

/// One row per stored password: its position counted from 1, its identifier and
/// its value.
pub open spec fn lp_rows(vault: Seq<Entry>) -> Seq<Seq<Seq<char>>> {
    Seq::new(vault.len(), |i: int| seq![decimal((i + 1) as nat), vault[i].0, vault[i].1])
}

/// The table of stored passwords (header only where there are none).
pub fn password_table(passfile_data: &Vec<PasswordData>) -> (res: String)
    ensures
        res@ == rounded_table_text(lp_header(), lp_rows(passfile_data.deep_view())),
{
    let ghost dv = passfile_data.deep_view();
    let columns = triple_row("#".to_owned(), "Id".to_owned(), "Password".to_owned());
    let mut rows: Vec<Vec<String>> = Vec::new();
    let n = passfile_data.len();
    for i in 0..n
        invariant
            n == dv.len(),
            dv == passfile_data.deep_view(),
            rows.deep_view() == lp_rows(dv).take(i as int),
    {
        let row = triple_row(decimal_string(i + 1), passfile_data[i].id.clone(), passfile_data[i].value.clone());
        push_row(&mut rows, row);
        assert(lp_rows(dv).take(i + 1) =~= lp_rows(dv).take(i as int).push(lp_rows(dv)[i as int]));
    }
    assert(lp_rows(dv).take(n as int) =~= lp_rows(dv));
    rounded_table(&columns, &rows)
}

/// The table of stored passwords; `None` where there are none ("You don't have
/// any saved password").
pub fn lp(passfile_data: &Vec<PasswordData>) -> (res: Option<String>)
    ensures
        res is None <==> passfile_data@.len() == 0,
        res is Some ==> res.unwrap()@ == rounded_table_text(lp_header(), lp_rows(passfile_data.deep_view())),
{
    if passfile_data.len() == 0 {
        return None;
    }
    Some(password_table(passfile_data))
}

pub open spec fn show_header() -> Seq<Seq<char>> {
    seq!["#"@, "Id"@]
}

/// One row per stored password: its position counted from 1 and its identifier.
pub open spec fn show_rows(vault: Seq<Entry>) -> Seq<Seq<Seq<char>>> {
    Seq::new(vault.len(), |i: int| seq![decimal((i + 1) as nat), vault[i].0])
}

/// The table of stored identifiers, without their values.
pub fn id_table(passfile_data: &Vec<PasswordData>) -> (res: String)
    ensures
        res@ == rounded_table_text(show_header(), show_rows(passfile_data.deep_view())),
{
    let ghost dv = passfile_data.deep_view();
    let columns = pair_row("#", "Id");
    let mut rows: Vec<Vec<String>> = Vec::new();
    let n = passfile_data.len();
    for i in 0..n
        invariant
            n == dv.len(),
            dv == passfile_data.deep_view(),
            rows.deep_view() == show_rows(dv).take(i as int),
    {
        let number = decimal_string(i + 1);
        let id = passfile_data[i].id.clone();
        let ghost (vn, vi) = (number@, id@);
        let mut row: Vec<String> = Vec::new();
        row.push(number);
        row.push(id);
        assert(row.deep_view() =~= seq![vn, vi]);
        push_row(&mut rows, row);
        assert(show_rows(dv).take(i + 1) =~= show_rows(dv).take(i as int).push(show_rows(dv)[i as int]));
    }
    assert(show_rows(dv).take(n as int) =~= show_rows(dv));
    rounded_table(&columns, &rows)
}

pub open spec fn gc_header() -> Seq<Seq<char>> {
    seq!["Configuration name"@, "Value"@]
}

pub open spec fn yes_no(b: bool) -> Seq<char> {
    if b {
        "True"@
    } else {
        "False"@
    }
}

pub open spec fn gc_rows(config_path: Seq<char>, c: ConfigFile) -> Seq<Seq<Seq<char>>> {
    seq![
        seq!["LPM config file path"@, config_path],
        seq!["passfile.lpm path"@, c.passfile_path@],
        seq!["Prompt"@, c.lpm_prompt@],
        seq!["Remote Server"@, yes_no(c.remote_server.lpm_remote_server)],
        seq!["Remote Server type"@, c.remote_server.lpm_remote_server_type@],
        seq!["Remote Server path"@, c.remote_server.lpm_remote_server_path@],
    ]
}

/// The configuration table: the configuration file's path and each setting,
/// wrapped at 40 columns.
pub fn gc(config_path: &str, configuration: &ConfigFile) -> (res: String)
    ensures
        res@ == rounded_left_wrapped_table_text(gc_header(), gc_rows(config_path@, *configuration), 40),
{
    let header = pair_row("Configuration name", "Value");
    let remote_server = if configuration.remote_server.lpm_remote_server {
        "True"
    } else {
        "False"
    };
    let mut rows: Vec<Vec<String>> = Vec::new();
    push_row(&mut rows, pair_row("LPM config file path", config_path));
    push_row(&mut rows, pair_row("passfile.lpm path", configuration.passfile_path.as_str()));
    push_row(&mut rows, pair_row("Prompt", configuration.lpm_prompt.as_str()));
    push_row(&mut rows, pair_row("Remote Server", remote_server));
    push_row(&mut rows, pair_row("Remote Server type", configuration.remote_server.lpm_remote_server_type.as_str()));
    push_row(&mut rows, pair_row("Remote Server path", configuration.remote_server.lpm_remote_server_path.as_str()));
    assert(rows.deep_view() =~= gc_rows(config_path@, *configuration));
    rounded_left_wrapped_table(&header, &rows, 40)
}

/// The escape sequence that clears the terminal and homes the cursor (Linux and
/// macOS).
pub fn clear() -> (res: String)
    ensures
        res@ == "\u{1b}[2J\u{1b}[1;1H"@,
{
    "\u{1b}[2J\u{1b}[1;1H".to_owned()
}

/// The escape sequences that clear the terminal on Windows.
pub fn clear_windows() -> (res: String)
    ensures
        res@ == "\u{1b}[2H\u{1b}[2J"@,
{
    "\u{1b}[2H\u{1b}[2J".to_owned()
}

/// Whether `np` can run inline on `input` (it indexes past the pieces otherwise).
pub fn np_input_in_bounds(input: &str) -> (res: bool)
    ensures
        res == np_in_bounds(input@),
{
    let cs = chars_of(input);
    let t = trim_chars(&cs);
    let tparts = split_chars(&t);
    let n = tparts.len();
    if (n != 3 && starts_with_str(&t, "np")) || (n != 4 && starts_with_str(&t, "new password")) {
        return true;
    }
    let parts = split_chars(&cs);
    if starts_with_str(&cs, "np") {
        parts.len() >= 3
    } else {
        parts.len() >= 4
    }
}

/// Whether `np` asks for the identifier and the value interactively.
pub fn np_input_is_interactive(input: &str) -> (res: bool)
    ensures
        res == np_is_interactive(input@),
{
    let cs = chars_of(input);
    eq_str(&cs, "np") || eq_str(&cs, "new password")
}

/// The identifier typed for an interactive `np`, trimmed; `Duplicate` where it
/// is already stored (checked before the value is asked for).
pub fn np_id(passfile_data: &Vec<PasswordData>, id_line: &str) -> (res: Result<String, NpError>)
    ensures
        has_id(passfile_data.deep_view(), trim(id_line@)) ==> res == Err::<String, NpError>(NpError::Duplicate),
        !has_id(passfile_data.deep_view(), trim(id_line@)) ==> res is Ok && res.unwrap()@ == trim(id_line@),
{
    let cs = chars_of(id_line);
    let id = trim_chars(&cs);
    if contains_id(passfile_data, &id) {
        Err(NpError::Duplicate)
    } else {
        Ok(string_from(&id))
    }
}

/// Adds the password of an interactive `np`: the value typed, trimmed, or a
/// random password where it is `r` or `random`.
pub fn np_add(passfile_data: &mut Vec<PasswordData>, id: String, value_line: &str)
    requires
        !has_id(old(passfile_data).deep_view(), id@),
    ensures
        exists|random: Seq<char>|
            generated_password(random) && final(passfile_data).deep_view() == old(passfile_data).deep_view().push(
                (id@, resolve_value(trim(value_line@), random)),
            ),
        unique_ids(old(passfile_data).deep_view()) ==> unique_ids(final(passfile_data).deep_view()),
{
    let ghost old_vault = passfile_data.deep_view();
    let ghost idv = id@;
    proof {
        lemma_sample_password();
    }
    let cs = chars_of(value_line);
    let v = trim_chars(&cs);
    let ghost mut random = sample_password();
    let value: String = if random_requested(&v) {
        let generated = random_password();
        proof {
            random = generated@;
        }
        generated
    } else {
        string_from(&v)
    };
    passfile_data.push(PasswordData::new(id, value));
    assert(passfile_data.deep_view() =~= old_vault.push((idv, resolve_value(trim(value_line@), random)))) by {
        assert forall|k: int| 0 <= k < old_vault.len() implies passfile_data.deep_view()[k] == old_vault[k] by {
            assert(passfile_data@[k] == old(passfile_data)@[k]);
        }
    }
    proof {
        if unique_ids(old_vault) {
            lemma_push_keeps_unique(old_vault, (idv, resolve_value(trim(value_line@), random)));
        }
    }
}

/// Whether `rm` can run on `input` without indexing out of bounds.
pub fn rm_input_in_bounds(passfile_data: &Vec<PasswordData>, input: &str) -> (res: bool)
    ensures
        res == (split(trim(input@)).len() >= 2 && rm_run(
            passfile_data.deep_view(),
            rm_requested_id(input@),
            passfile_data@.len(),
        ).2),
{
    let cs = chars_of(input);
    let t = trim_chars(&cs);
    let parts = split_chars(&t);
    if parts.len() < 2 {
        return false;
    }
    let requested = parts[1].clone();
    let ghost orig = passfile_data.deep_view();
    let ghost id = rm_requested_id(input@);
    let n = passfile_data.len();
    let mut current: usize = n;
    let mut ok = true;
    for counter in 0..n
        invariant
            n == orig.len(),
            orig == passfile_data.deep_view(),
            requested@ == id,
            rm_run(orig, id, counter as nat).0.len() == current,
            rm_run(orig, id, counter as nat).2 == ok,
    {
        let candidate = chars_of(passfile_data[counter].id.as_str());
        if chars_eq(&candidate, &requested) {
            if counter < current {
                current = current - 1;
            } else {
                ok = false;
            }
        }
    }
    ok
}

/// The usage message for a malformed inline `np`, naming the form used.
pub fn np_usage(input: &str) -> (res: String)
    ensures
        res@ == "usage: "@ + (if starts_with(input@, "np"@) { "np"@ } else { "new password"@ })
            + " [password ID] [password value or random | r], if no arguments both are requested in user inputs"@,
{
    let cs = chars_of(input);
    let command = if starts_with_str(&cs, "np") {
        chars_of("np")
    } else {
        chars_of("new password")
    };
    let rest = chars_of(" [password ID] [password value or random | r], if no arguments both are requested in user inputs");
    let head = concat_chars(&chars_of("usage: "), &command);
    let message = concat_chars(&head, &rest);
    string_from(&message)
}

/// What the prompt and `-c` hand to `np` (a trimmed line that names `np` or
/// `new password`) never makes it index past its pieces.
pub proof fn law_np_in_bounds_when_trimmed(line: Seq<char>)
    requires
        is_np_command(trim(line)),
    ensures
        np_in_bounds(trim(line)),
{
    lemma_trim_idempotent(line);
}

/// What the command given with `-c` asks for.
#[derive(Clone, Copy, Debug, PartialEq, Eq, Structural)]
pub enum CliCommand {
    /// `cp ID` / `copy ID`: `copy` gets the command.
    Copy,
    NewPassword,
    Remove,
    RemoveTooMany,
    Help,
    List,
    GetConfiguration,
    Author,
    Exit,
    Clear,
    Nothing,
    Invalid,
}

pub open spec fn is_np_command(c: Seq<char>) -> bool {
    starts_with(c, "np"@) || starts_with(c, "new password"@)
}

pub open spec fn commander_outcome(command: Seq<char>) -> CliCommand {
    let t = trim(command);
    if starts_with(command, "cp"@) || starts_with(command, "copy"@) {
        CliCommand::Copy
    } else if is_np_command(command) {
        CliCommand::NewPassword
    } else if starts_with(command, "rm"@) || starts_with(t, "rem"@) || starts_with(command, "del"@) {
        if split(command).len() > 2 {
            CliCommand::RemoveTooMany
        } else {
            CliCommand::Remove
        }
    } else if t == "help"@ {
        CliCommand::Help
    } else if t == "list"@ || t == "lp"@ {
        CliCommand::List
    } else if t == "new password"@ || t == "np"@ {
        CliCommand::NewPassword
    } else if t == "get configuration"@ || t == "gc"@ {
        CliCommand::GetConfiguration
    } else if t == "author"@ || t == "lpm"@ {
        CliCommand::Author
    } else if t == "exit"@ || t == "wq"@ || t == "w"@ || t == "q"@ {
        CliCommand::Exit
    } else if t == "clear"@ {
        CliCommand::Clear
    } else if t.len() == 0 {
        CliCommand::Nothing
    } else {
        CliCommand::Invalid
    }
}

/// Each command that the help names, given with `-c` (white space around it
/// aside), is classified as its action; an empty command asks for nothing.
pub proof fn law_commander_names(command: Seq<char>)
    ensures
        trim(command) == "help"@ ==> commander_outcome(command) == CliCommand::Help,
        trim(command) == "list"@ || trim(command) == "lp"@ ==> commander_outcome(command) == CliCommand::List,
        trim(command) == "new password"@ || trim(command) == "np"@ ==> commander_outcome(command)
            == CliCommand::NewPassword,
        trim(command) == "get configuration"@ || trim(command) == "gc"@ ==> commander_outcome(command)
            == CliCommand::GetConfiguration,
        trim(command) == "author"@ || trim(command) == "lpm"@ ==> commander_outcome(command) == CliCommand::Author,
        trim(command) == "exit"@ || trim(command) == "wq"@ || trim(command) == "w"@ || trim(command) == "q"@
            ==> commander_outcome(command) == CliCommand::Exit,
        trim(command) == "clear"@ ==> commander_outcome(command) == CliCommand::Clear,
        trim(command).len() == 0 ==> commander_outcome(command) == CliCommand::Nothing,
{
    reveal_strlit("cp");
    reveal_strlit("copy");
    reveal_strlit("np");
    reveal_strlit("new password");
    reveal_strlit("rm");
    reveal_strlit("rem");
    reveal_strlit("del");
    reveal_strlit("help");
    reveal_strlit("list");
    reveal_strlit("lp");
    reveal_strlit("get configuration");
    reveal_strlit("gc");
    reveal_strlit("author");
    reveal_strlit("lpm");
    reveal_strlit("exit");
    reveal_strlit("wq");
    reveal_strlit("w");
    reveal_strlit("q");
    reveal_strlit("clear");
    let t = trim(command);
    lemma_trim_prefix_of(command);
    lemma_differs_early(t, "cp"@);
    lemma_differs_early(command, "cp"@);
    lemma_differs_early(t, "copy"@);
    lemma_differs_early(command, "copy"@);
    lemma_differs_early(t, "np"@);
    lemma_differs_early(command, "np"@);
    lemma_differs_early(t, "new password"@);
    lemma_differs_early(command, "new password"@);
    lemma_differs_early(t, "rm"@);
    lemma_differs_early(command, "rm"@);
    lemma_differs_early(t, "rem"@);
    lemma_differs_early(command, "rem"@);
    lemma_differs_early(t, "del"@);
    lemma_differs_early(command, "del"@);
    lemma_differs_early(t, "help"@);
    lemma_differs_early(command, "help"@);
    lemma_differs_early(t, "list"@);
    lemma_differs_early(command, "list"@);
    lemma_differs_early(t, "lp"@);
    lemma_differs_early(command, "lp"@);
    lemma_differs_early(t, "get configuration"@);
    lemma_differs_early(command, "get configuration"@);
    lemma_differs_early(t, "gc"@);
    lemma_differs_early(command, "gc"@);
    lemma_differs_early(t, "author"@);
    lemma_differs_early(command, "author"@);
    lemma_differs_early(t, "lpm"@);
    lemma_differs_early(command, "lpm"@);
    lemma_differs_early(t, "exit"@);
    lemma_differs_early(command, "exit"@);
    lemma_differs_early(t, "wq"@);
    lemma_differs_early(command, "wq"@);
    lemma_differs_early(t, "w"@);
    lemma_differs_early(command, "w"@);
    lemma_differs_early(t, "q"@);
    lemma_differs_early(command, "q"@);
    lemma_differs_early(t, "clear"@);
    lemma_differs_early(command, "clear"@);
}

/// Classifies the command given with `-c`.
pub fn commander(command: &str) -> (res: CliCommand)
    ensures
        res == commander_outcome(command@),
{
    let c = chars_of(command);
    let t = trim_chars(&c);
    if starts_with_str(&c, "cp") || starts_with_str(&c, "copy") {
        CliCommand::Copy
    } else if starts_with_str(&c, "np") || starts_with_str(&c, "new password") {
        CliCommand::NewPassword
    } else if starts_with_str(&c, "rm") || starts_with_str(&t, "rem") || starts_with_str(&c, "del") {
        let parts = split_chars(&c);
        if parts.len() > 2 {
            CliCommand::RemoveTooMany
        } else {
            CliCommand::Remove
        }
    } else if eq_str(&t, "help") {
        CliCommand::Help
    } else if eq_str(&t, "list") || eq_str(&t, "lp") {
        CliCommand::List
    } else if eq_str(&t, "new password") || eq_str(&t, "np") {
        CliCommand::NewPassword
    } else if eq_str(&t, "get configuration") || eq_str(&t, "gc") {
        CliCommand::GetConfiguration
    } else if eq_str(&t, "author") || eq_str(&t, "lpm") {
        CliCommand::Author
    } else if eq_str(&t, "exit") || eq_str(&t, "wq") || eq_str(&t, "w") || eq_str(&t, "q") {
        CliCommand::Exit
    } else if eq_str(&t, "clear") {
        CliCommand::Clear
    } else if t.len() == 0 {
        CliCommand::Nothing
    } else {
        CliCommand::Invalid
    }
}

} // verus!
