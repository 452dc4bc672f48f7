//! The configuration file's content and the paths and defaults derived from the
//! user's home directory.
use vstd::prelude::*;
use crate::text::{chars_of, concat_chars, string_from};

verus! {

/// The content of `lpm.conf`.
pub struct ConfigFile {
    pub passfile_path: String,
    pub lpm_prompt: String,
    pub remote_server: RemoteServer,
}

/// The `[remote_server]` table of `lpm.conf`.
pub struct RemoteServer {
    pub lpm_remote_server: bool,
    pub lpm_remote_server_type: String,
    pub lpm_remote_server_path: String,
}

/// `home` followed by `suffix`.
fn joined(home: &str, suffix: &str) -> (res: String)
    ensures
        res@ == home@ + suffix@,
{
    let a = chars_of(home);
    let b = chars_of(suffix);
    let c = concat_chars(&a, &b);
    string_from(&c)
}

/// Where the configuration lives on Linux and macOS, under `$HOME`.
pub fn config_path(home: &str) -> (res: String)
    ensures
        res@ == home@ + "/.config/lpm/lpm.conf"@,
{
    joined(home, "/.config/lpm/lpm.conf")
}

/// Where the configuration lives on Windows, under `%USERPROFILE%`.
pub fn windows_config_path(user_profile: &str) -> (res: String)
    ensures
        res@ == user_profile@ + "/AppData/Roaming/lpm/lpm.conf"@,
{
    joined(user_profile, "/AppData/Roaming/lpm/lpm.conf")
}

/// The default passfile path under the home directory.
pub fn lpm_default_path(home: &str) -> (res: String)
    ensures
        res@ == home@ + "/.passfile.lpm"@,
{
    joined(home, "/.passfile.lpm")
}

/// The configuration written when none exists: the passfile in the home
/// directory, the prompt `lpm >` and no remote server.
pub fn default_config(home: &str) -> (res: ConfigFile)
    ensures
        res.passfile_path@ == home@ + "/.passfile.lpm"@,
        res.lpm_prompt@ == "lpm >"@,
        !res.remote_server.lpm_remote_server,
        res.remote_server.lpm_remote_server_type@ == ""@,
        res.remote_server.lpm_remote_server_path@ == ""@,
{
    ConfigFile {
        passfile_path: lpm_default_path(home),
        lpm_prompt: "lpm >".to_owned(),
        remote_server: RemoteServer {
            lpm_remote_server: false,
            lpm_remote_server_type: "".to_owned(),
            lpm_remote_server_path: "".to_owned(),
        },
    }
}

} // verus!
