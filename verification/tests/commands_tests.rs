use tabled::settings::{Margin, Style};
use lpm::commands::{
    author_table, clear, clear_windows, commander, copy, gc, help, id_table, lp, np, np_add, np_id,
    np_input_in_bounds, np_input_is_interactive, password_table, random_password, rm,
    rm_input_in_bounds, CliCommand, CopyError, NpError,
};
use lpm::config::default_config;
use lpm::serde::PasswordData;

fn entry(id: &str, value: &str) -> PasswordData {
    PasswordData::new(id.to_string(), value.to_string())
}

fn pairs(v: &[PasswordData]) -> Vec<(String, String)> {
    v.iter().map(|p| (p.id.clone(), p.value.clone())).collect()
}

fn pair(id: &str, value: &str) -> (String, String) {
    (id.to_string(), value.to_string())
}

const CHARSET: &str = "abcdefghijklmnopqrstuvwxyzABCDEFGHIJKLMNOPQRSTUVWXYZ0123456789!@#$%^&*()-_+=~`[]{}|:;\"'<>,.?/";

#[test]
fn np_inline_adds_a_password() {
    let mut data = vec![entry("a", "1")];
    assert_eq!(np(&mut data, "np mail secret"), Ok(()));
    assert_eq!(pairs(&data), vec![pair("a", "1"), pair("mail", "secret")]);
}

#[test]
fn np_long_form_adds_a_password() {
    let mut data = Vec::new();
    assert_eq!(np(&mut data, "new password bank 1234"), Ok(()));
    assert_eq!(pairs(&data), vec![pair("bank", "1234")]);
}

#[test]
fn np_refuses_a_duplicate_identifier() {
    let mut data = vec![entry("mail", "old")];
    assert_eq!(np(&mut data, "np mail new"), Err(NpError::Duplicate));
    assert_eq!(pairs(&data), vec![pair("mail", "old")]);
}

#[test]
fn np_reports_usage_errors() {
    let mut data = vec![entry("x", "y")];
    assert_eq!(np(&mut data, "np onlyid"), Err(NpError::Usage));
    assert_eq!(np(&mut data, "np a b c"), Err(NpError::Usage));
    assert_eq!(np(&mut data, "new password a"), Err(NpError::Usage));
    assert_eq!(np(&mut data, "np  a b"), Err(NpError::Usage));
    assert_eq!(pairs(&data), vec![pair("x", "y")]);
}

#[test]
fn np_draws_a_random_password_for_r_and_random() {
    let mut data = Vec::new();
    assert_eq!(np(&mut data, "np one r"), Ok(()));
    assert_eq!(np(&mut data, "np two random"), Ok(()));
    for p in &data {
        assert_eq!(p.value.chars().count(), 30);
        assert!(p.value.chars().all(|c| CHARSET.contains(c)));
    }
}

#[test]
fn np_input_checks() {
    assert!(np_input_is_interactive("np"));
    assert!(np_input_is_interactive("new password"));
    assert!(!np_input_is_interactive("np a b"));
    assert!(np_input_in_bounds("np a b"));
    assert!(np_input_in_bounds("np a"));
    assert!(!np_input_in_bounds("xyz"));
    assert!(!np_input_in_bounds("\tnp a b"));
    assert!(np_input_in_bounds("new password a"));
    assert!(np_input_in_bounds("npx"));
}

#[test]
fn random_password_has_thirty_characters_of_the_charset() {
    let p = random_password();
    assert_eq!(p.chars().count(), 30);
    assert!(p.chars().all(|c| CHARSET.contains(c)));
}

#[test]
fn interactive_np_checks_the_identifier_then_adds() {
    let mut data = vec![entry("mail", "x")];
    assert_eq!(np_id(&data, "mail\n"), Err(NpError::Duplicate));
    let id = np_id(&data, "  bank \n").unwrap();
    assert_eq!(id, "bank");
    np_add(&mut data, id, " 1234\n");
    assert_eq!(pairs(&data), vec![pair("mail", "x"), pair("bank", "1234")]);
    let id = np_id(&data, "gen").unwrap();
    np_add(&mut data, id, "random\n");
    assert_eq!(data[2].value.chars().count(), 30);
}

#[test]
fn rm_removes_the_named_password() {
    let mut data = vec![entry("a", "1"), entry("b", "2"), entry("c", "3")];
    assert!(rm_input_in_bounds(&data, "rm b"));
    assert!(rm(&mut data, "rm b\n"));
    assert_eq!(pairs(&data), vec![pair("a", "1"), pair("c", "3")]);
}

#[test]
fn rm_of_a_missing_identifier_changes_nothing() {
    let mut data = vec![entry("a", "1")];
    assert!(!rm(&mut data, "del zzz"));
    assert_eq!(pairs(&data), vec![pair("a", "1")]);
}

#[test]
fn rm_after_np_restores_the_store() {
    let mut data = vec![entry("a", "1"), entry("b", "2")];
    let before = pairs(&data);
    np(&mut data, "np fresh value").unwrap();
    assert!(rm(&mut data, "rm fresh"));
    assert_eq!(pairs(&data), before);
}

#[test]
fn rm_input_bounds_follow_the_index_walk() {
    let dup = vec![entry("a", "1"), entry("x", "2"), entry("a", "3")];
    assert!(!rm_input_in_bounds(&dup, "rm a"));
    let adjacent = vec![entry("a", "1"), entry("a", "2")];
    assert!(!rm_input_in_bounds(&adjacent, "rm a"));
    assert!(!rm_input_in_bounds(&adjacent, "rm"));
    let mut data = vec![entry("a", "1"), entry("a", "2"), entry("x", "3")];
    assert!(rm_input_in_bounds(&data, "rm a"));
    assert!(rm(&mut data, "rm a"));
    assert_eq!(pairs(&data), vec![pair("a", "2")]);
}

#[test]
fn copy_finds_the_value() {
    let data = vec![entry("mail", "secret"), entry("bank", "1234")];
    assert_eq!(copy(&data, "cp bank\n"), Ok("1234".to_string()));
    assert_eq!(copy(&data, "copy mail"), Ok("secret".to_string()));
}

#[test]
fn copy_errors() {
    let data = vec![entry("mail", "secret")];
    assert_eq!(copy(&data, "cp"), Err(CopyError::InvalidIdentifier));
    assert_eq!(copy(&data, "cp a b"), Err(CopyError::InvalidIdentifier));
    assert_eq!(copy(&data, "cp nothing"), Err(CopyError::NoSuchIdentifier));
}

#[test]
fn copy_takes_the_last_of_equal_identifiers() {
    let data = vec![entry("a", "first"), entry("a", "second")];
    assert_eq!(copy(&data, "cp a"), Ok("second".to_string()));
}

fn tabled_rounded(header: Vec<&str>, rows: Vec<Vec<String>>) -> String {
    let mut builder = tabled::builder::Builder::default();
    builder.set_header(header);
    for row in rows {
        builder.push_record(row);
    }
    builder.build().with(Style::rounded()).with(Margin::new(2, 0, 1, 1)).to_string()
}

#[test]
fn lp_is_none_for_an_empty_store() {
    assert_eq!(lp(&Vec::new()), None);
}

#[test]
fn lp_numbers_the_passwords() {
    let data = vec![entry("mail", "secret"), entry("bank", "1234")];
    let table = lp(&data).unwrap();
    let expected = tabled_rounded(
        vec!["#", "Id", "Password"],
        vec![
            vec!["1".to_string(), "mail".to_string(), "secret".to_string()],
            vec!["2".to_string(), "bank".to_string(), "1234".to_string()],
        ],
    );
    assert_eq!(table, expected);
    assert!(table.contains("secret"));
    assert_eq!(password_table(&data), table);
}

#[test]
fn id_table_leaves_out_the_values() {
    let data = vec![entry("mail", "secret")];
    let table = id_table(&data);
    let expected = tabled_rounded(vec!["#", "Id"], vec![vec!["1".to_string(), "mail".to_string()]]);
    assert_eq!(table, expected);
    assert!(!table.contains("secret"));
}

#[test]
fn help_lists_the_commands() {
    let text = help();
    assert!(text.contains("Command"));
    assert!(text.contains("prints this help"));
    assert!(text.contains("closes lpm"));
}

#[test]
fn author_table_names_the_author() {
    let text = author_table();
    assert!(text.contains("Letder"));
    assert!(text.contains("https://github.com/Letder40"));
}

#[test]
fn gc_shows_the_configuration() {
    let config = default_config("/home/u");
    let text = gc("/home/u/.config/lpm/lpm.conf", &config);
    assert!(text.contains("/home/u/.passfile.lpm"));
    assert!(text.contains("lpm >"));
    assert!(text.contains("False"));
}

#[test]
fn clear_sequences() {
    assert_eq!(clear(), "\u{1b}[2J\u{1b}[1;1H");
    assert_eq!(clear_windows(), "\u{1b}[2H\u{1b}[2J");
}

#[test]
fn commander_classifies_commands() {
    assert_eq!(commander("np a b"), CliCommand::NewPassword);
    assert_eq!(commander("new password"), CliCommand::NewPassword);
    assert_eq!(commander("rm a"), CliCommand::Remove);
    assert_eq!(commander("del a b"), CliCommand::RemoveTooMany);
    assert_eq!(commander("help"), CliCommand::Help);
    assert_eq!(commander("lp"), CliCommand::List);
    assert_eq!(commander("list"), CliCommand::List);
    assert_eq!(commander("gc"), CliCommand::GetConfiguration);
    assert_eq!(commander("lpm"), CliCommand::Author);
    assert_eq!(commander("q"), CliCommand::Exit);
    assert_eq!(commander("w"), CliCommand::Exit);
    assert_eq!(commander("clear"), CliCommand::Clear);
    assert_eq!(commander(""), CliCommand::Nothing);
    assert_eq!(commander("cp github"), CliCommand::Copy);
    assert_eq!(commander("copy github"), CliCommand::Copy);
    assert_eq!(commander("wq"), CliCommand::Exit);
    assert_eq!(commander("exit"), CliCommand::Exit);
    assert_eq!(commander("bogus"), CliCommand::Invalid);
}

#[test]
fn np_usage_names_the_form() {
    assert_eq!(
        lpm::commands::np_usage("np a"),
        "usage: np [password ID] [password value or random | r], if no arguments both are requested in user inputs"
    );
    assert!(lpm::commands::np_usage("new password a").starts_with("usage: new password [password ID]"));
}

#[test]
fn copy_finds_what_np_added() {
    let mut data = vec![entry("a", "1")];
    np(&mut data, "np site value42").unwrap();
    assert_eq!(copy(&data, "cp site"), Ok("value42".to_string()));
}

#[test]
fn identifiers_stay_unique_through_np_and_rm() {
    let mut data = Vec::new();
    np(&mut data, "np a 1").unwrap();
    np(&mut data, "np b 2").unwrap();
    assert_eq!(np(&mut data, "np a 3"), Err(NpError::Duplicate));
    assert!(rm(&mut data, "rm a"));
    np(&mut data, "np a 4").unwrap();
    let mut ids: Vec<String> = data.iter().map(|p| p.id.clone()).collect();
    ids.sort();
    ids.dedup();
    assert_eq!(ids.len(), data.len());
}
