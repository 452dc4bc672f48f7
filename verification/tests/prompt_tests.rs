use lpm::arguments::{check_arguments, ArgumentAction};
use lpm::config::{config_path, default_config, lpm_default_path, windows_config_path};
use lpm::home::{home, TuiCommand};
use lpm::text::{decimal_string, string_from, trim_chars, split_chars, chars_of};
use lpm::utils::{check_filepass, FilepassAnswer};

fn args(list: &[&str]) -> Vec<String> {
    list.iter().map(|s| s.to_string()).collect()
}

#[test]
fn no_arguments_start_the_prompt() {
    assert!(matches!(check_arguments(&args(&["lpm"])), ArgumentAction::Tui));
    assert!(matches!(check_arguments(&args(&["lpm", ""])), ArgumentAction::Tui));
}

#[test]
fn dash_c_carries_the_command() {
    match check_arguments(&args(&["lpm", "-c", "np", "mail", "secret"])) {
        ArgumentAction::Command(c) => assert_eq!(c, "np mail secret"),
        _ => panic!("expected a command"),
    }
    match check_arguments(&args(&["lpm", "-c"])) {
        ArgumentAction::Command(c) => assert_eq!(c, ""),
        _ => panic!("expected a command"),
    }
}

#[test]
fn help_server_and_invalid_arguments() {
    assert!(matches!(check_arguments(&args(&["lpm", "--help"])), ArgumentAction::Help));
    assert!(matches!(check_arguments(&args(&["lpm", "--server"])), ArgumentAction::Server));
    assert!(matches!(check_arguments(&args(&["lpm", "-x"])), ArgumentAction::Invalid));
    assert!(matches!(check_arguments(&args(&["lpm", "--help me"])), ArgumentAction::Help));
    assert!(matches!(check_arguments(&args(&["lpm", "-c-x"])), ArgumentAction::Invalid));
}

#[test]
fn home_classifies_prompt_lines() {
    assert_eq!(home("cp mail\n"), TuiCommand::Copy);
    assert_eq!(home("copy mail\n"), TuiCommand::Copy);
    assert_eq!(home("np a b\n"), TuiCommand::NewPassword);
    assert_eq!(home("new password\n"), TuiCommand::NewPassword);
    assert_eq!(home("rm a\n"), TuiCommand::Remove { too_many: false });
    assert_eq!(home("rem a b\n"), TuiCommand::Remove { too_many: true });
    assert_eq!(home("help\n"), TuiCommand::Help);
    assert_eq!(home("  lp \n"), TuiCommand::List);
    assert_eq!(home("get configuration\n"), TuiCommand::GetConfiguration);
    assert_eq!(home("author\n"), TuiCommand::Author);
    assert_eq!(home("exit\n"), TuiCommand::Exit);
    assert_eq!(home("wq\n"), TuiCommand::Exit);
    assert_eq!(home("q\n"), TuiCommand::Exit);
    assert_eq!(home("clear\n"), TuiCommand::Clear);
    assert_eq!(home("\n"), TuiCommand::Nothing);
    assert_eq!(home("bogus\n"), TuiCommand::Invalid);
}

#[test]
fn filepass_answers() {
    assert_eq!(check_filepass("y\n"), FilepassAnswer::Create);
    assert_eq!(check_filepass("Y\n"), FilepassAnswer::Create);
    assert_eq!(check_filepass("\n"), FilepassAnswer::Create);
    assert_eq!(check_filepass("N\n"), FilepassAnswer::Refuse);
    assert_eq!(check_filepass("maybe\n"), FilepassAnswer::Invalid);
    assert_eq!(check_filepass("x\ny\n"), FilepassAnswer::Invalid);
}

#[test]
fn config_paths() {
    assert_eq!(config_path("/home/u"), "/home/u/.config/lpm/lpm.conf");
    assert_eq!(windows_config_path("C:/Users/u"), "C:/Users/u/AppData/Roaming/lpm/lpm.conf");
    assert_eq!(lpm_default_path("/home/u"), "/home/u/.passfile.lpm");
}

#[test]
fn default_config_values() {
    let c = default_config("/root");
    assert_eq!(c.passfile_path, "/root/.passfile.lpm");
    assert_eq!(c.lpm_prompt, "lpm >");
    assert!(!c.remote_server.lpm_remote_server);
    assert_eq!(c.remote_server.lpm_remote_server_type, "");
    assert_eq!(c.remote_server.lpm_remote_server_path, "");
}

#[test]
fn text_helpers() {
    assert_eq!(decimal_string(0), "0");
    assert_eq!(decimal_string(1907), "1907");
    let t = trim_chars(&chars_of("\u{a0} a b \t\n"));
    assert_eq!(string_from(&t), "a b");
    let parts: Vec<String> = split_chars(&chars_of(" a  b")).iter().map(|p| string_from(p)).collect();
    assert_eq!(parts, vec!["", "a", "", "b"]);
}
