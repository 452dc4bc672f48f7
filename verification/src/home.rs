//! The interactive prompt: what each line typed at the `lpm >` prompt asks for.
use vstd::prelude::*;
use crate::text::{lemma_differs_early,trim, split, starts_with, chars_of, eq_str, trim_chars, split_chars, starts_with_str};
use crate::commands::is_np_command;

verus! {

/// What a line typed at the prompt asks for.
#[derive(Clone, Copy, Debug, PartialEq, Eq, Structural)]
pub enum TuiCommand {
    /// Copy a password to the clipboard (`copy` gets the whole line).
    Copy,
    /// Add a password (`np` gets the trimmed line).
    NewPassword,
    /// Remove a password (`rm` gets the whole line); with more than two pieces
    /// an error is shown first and the removal still runs.
    Remove { too_many: bool },
    Help,
    List,
    GetConfiguration,
    Author,
    Exit,
    Clear,
    Nothing,
    Invalid,
}

pub open spec fn home_outcome(input: Seq<char>) -> TuiCommand {
    let t = trim(input);
    if starts_with(t, "cp"@) || starts_with(t, "copy"@) {
        TuiCommand::Copy
    } else if is_np_command(t) {
        TuiCommand::NewPassword
    } else if starts_with(t, "rm"@) || starts_with(t, "rem"@) || starts_with(t, "del"@) {
        TuiCommand::Remove { too_many: split(input).len() > 2 }
    } else if t == "help"@ {
        TuiCommand::Help
    } else if t == "list"@ || t == "lp"@ {
        TuiCommand::List
    } else if t == "new password"@ || t == "np"@ {
        TuiCommand::NewPassword
    } else if t == "get configuration"@ || t == "gc"@ {
        TuiCommand::GetConfiguration
    } else if t == "author"@ || t == "lpm"@ {
        TuiCommand::Author
    } else if t == "exit"@ || t == "wq"@ || t == "w"@ || t == "q"@ {
        TuiCommand::Exit
    } else if t == "clear"@ {
        TuiCommand::Clear
    } else if t.len() == 0 {
        TuiCommand::Nothing
    } else {
        TuiCommand::Invalid
    }
}

/// Each command that the help names, typed alone at the prompt (white space
/// around it aside), is classified as its action; an empty line asks for
/// nothing, and a line that begins with `cp`, `copy`, `rm`, `rem` or `del` is a
/// copy or a removal.
pub proof fn law_home_names(line: Seq<char>)
    ensures
        trim(line) == "help"@ ==> home_outcome(line) == TuiCommand::Help,
        trim(line) == "list"@ || trim(line) == "lp"@ ==> home_outcome(line) == TuiCommand::List,
        trim(line) == "new password"@ || trim(line) == "np"@ ==> home_outcome(line) == TuiCommand::NewPassword,
        trim(line) == "get configuration"@ || trim(line) == "gc"@ ==> home_outcome(line)
            == TuiCommand::GetConfiguration,
        trim(line) == "author"@ || trim(line) == "lpm"@ ==> home_outcome(line) == TuiCommand::Author,
        trim(line) == "exit"@ || trim(line) == "wq"@ || trim(line) == "w"@ || trim(line) == "q"@ ==> home_outcome(
            line,
        ) == TuiCommand::Exit,
        trim(line) == "clear"@ ==> home_outcome(line) == TuiCommand::Clear,
        trim(line).len() == 0 ==> home_outcome(line) == TuiCommand::Nothing,
        starts_with(trim(line), "cp"@) || starts_with(trim(line), "copy"@) ==> home_outcome(line) == TuiCommand::Copy,
        starts_with(trim(line), "rm"@) || starts_with(trim(line), "rem"@) || starts_with(trim(line), "del"@)
            ==> home_outcome(line) == (TuiCommand::Remove { too_many: split(line).len() > 2 }),
{
    reveal_strlit("cp");
    reveal_strlit("copy");
    reveal_strlit("np");
    reveal_strlit("new password");
    reveal_strlit("rm");
    reveal_strlit("rem");
    reveal_strlit("del");
    reveal_strlit("help");
    reveal_strlit("list");
    reveal_strlit("lp");
    reveal_strlit("get configuration");
    reveal_strlit("gc");
    reveal_strlit("author");
    reveal_strlit("lpm");
    reveal_strlit("exit");
    reveal_strlit("wq");
    reveal_strlit("w");
    reveal_strlit("q");
    reveal_strlit("clear");
    let t = trim(line);
    lemma_differs_early(t, "cp"@);
    lemma_differs_early(t, "copy"@);
    lemma_differs_early(t, "np"@);
    lemma_differs_early(t, "new password"@);
    lemma_differs_early(t, "rm"@);
    lemma_differs_early(t, "rem"@);
    lemma_differs_early(t, "del"@);
    lemma_differs_early(t, "help"@);
    lemma_differs_early(t, "list"@);
    lemma_differs_early(t, "lp"@);
    lemma_differs_early(t, "get configuration"@);
    lemma_differs_early(t, "gc"@);
    lemma_differs_early(t, "author"@);
    lemma_differs_early(t, "lpm"@);
    lemma_differs_early(t, "exit"@);
    lemma_differs_early(t, "wq"@);
    lemma_differs_early(t, "w"@);
    lemma_differs_early(t, "q"@);
    lemma_differs_early(t, "clear"@);
}

/// Classifies a line typed at the prompt.
pub fn home(input: &str) -> (res: TuiCommand)
    ensures
        res == home_outcome(input@),
{
    let c = chars_of(input);
    let t = trim_chars(&c);
    if starts_with_str(&t, "cp") || starts_with_str(&t, "copy") {
        TuiCommand::Copy
    } else if starts_with_str(&t, "np") || starts_with_str(&t, "new password") {
        TuiCommand::NewPassword
    } else if starts_with_str(&t, "rm") || starts_with_str(&t, "rem") || starts_with_str(&t, "del") {
        let parts = split_chars(&c);
        TuiCommand::Remove { too_many: parts.len() > 2 }
    } else if eq_str(&t, "help") {
        TuiCommand::Help
    } else if eq_str(&t, "list") || eq_str(&t, "lp") {
        TuiCommand::List
    } else if eq_str(&t, "new password") || eq_str(&t, "np") {
        TuiCommand::NewPassword
    } else if eq_str(&t, "get configuration") || eq_str(&t, "gc") {
        TuiCommand::GetConfiguration
    } else if eq_str(&t, "author") || eq_str(&t, "lpm") {
        TuiCommand::Author
    } else if eq_str(&t, "exit") || eq_str(&t, "wq") || eq_str(&t, "w") || eq_str(&t, "q") {
        TuiCommand::Exit
    } else if eq_str(&t, "clear") {
        TuiCommand::Clear
    } else if t.len() == 0 {
        TuiCommand::Nothing
    } else {
        TuiCommand::Invalid
    }
}

} // verus!
