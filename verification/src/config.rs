//! The configuration: polling interval, shell, repositories and key
//! binding overrides, with their defaults.
use vstd::prelude::*;
use std::collections::HashMap;
use std::path::PathBuf;

verus! {

#[verifier::external_type_specification]
#[verifier::external_body]
pub struct ExPathBuf(PathBuf);

/// A repository listed in the config: where it is and an optional display
/// name.
#[derive(Debug)]
pub struct RepoConfig {
    pub path: PathBuf,
    pub name: Option<String>,
}

/// The whole configuration.
#[derive(Debug)]
pub struct Config {
    pub refresh_interval_secs: u64,
    pub shell: String,
    pub repos: Vec<RepoConfig>,
    pub keybindings: HashMap<String, String>,
}

/// The refresh interval used when the config does not give one.
pub fn default_refresh_interval() -> (r: u64)
    ensures
        r == 30,
{
    30
}

/// The shell used when the config does not give one: the value of `$SHELL`
/// when it is set, else `/bin/sh`.
pub fn shell_or_default(env_shell: Option<String>) -> (r: String)
    ensures
        r@ == match env_shell {
            Some(s) => s@,
            None => "/bin/sh"@,
        },
{
    match env_shell {
        Some(s) => s,
        None => String::from_str("/bin/sh"),
    }
}

impl Config {
    /// The configuration used when there is no config file: refresh every
    /// 30 seconds, run `shell`, no repositories, no key overrides.
    pub fn defaults(shell: String) -> (r: Config)
        ensures
            r.refresh_interval_secs == 30,
            r.shell == shell,
            r.repos@.len() == 0,
            r.keybindings@ == Map::<String, String>::empty(),
    {
        Config {
            refresh_interval_secs: default_refresh_interval(),
            shell,
            repos: Vec::new(),
            keybindings: HashMap::new(),
        }
    }
}

} // verus!
