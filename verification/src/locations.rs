//! Where the agent keeps its files: the working copy, the configuration and
//! the log under the user's configuration directory, key and known hosts
//! under the home directory.

use vstd::prelude::*;
use crate::git::{repo_name, repo_name_of, GitOp};
use crate::path::{join, joined};

verus! {

/// The user's configuration directory, where the platform names one and its
/// name is valid text.
///
/// Trusted: calls `dirs::config_dir`. The result depends on the
/// environment of the process, so nothing is claimed of it.
#[verifier::external_body]
pub(crate) fn config_dir() -> (r: Option<String>) {
    dirs::config_dir().and_then(|p| p.into_os_string().into_string().ok())
}

/// The user's home directory, where the platform names one and its name is
/// valid text.
///
/// Trusted: calls `dirs::home_dir`. The result depends on the environment
/// of the process, so nothing is claimed of it.
#[verifier::external_body]
pub(crate) fn home_dir() -> (r: Option<String>) {
    dirs::home_dir().and_then(|p| p.into_os_string().into_string().ok())
}

/// The agent's own directory under the configuration directory.
pub open spec fn agent_dir(config_dir: Seq<char>) -> Seq<char> {
    joined(config_dir, "giterdone"@)
}

/// The working copy of a remote.
pub open spec fn repo_path_under(config_dir: Seq<char>, repo_url: Seq<char>) -> Seq<char> {
    joined(agent_dir(config_dir), repo_name_of(repo_url))
}

/// The configuration file.
pub open spec fn config_path_under(config_dir: Seq<char>) -> Seq<char> {
    joined(agent_dir(config_dir), "config.json"@)
}

/// The log file.
pub open spec fn log_path_under(config_dir: Seq<char>) -> Seq<char> {
    joined(joined(agent_dir(config_dir), "logs"@), "giterdone.log"@)
}

/// The private key.
pub open spec fn key_path_under(home: Seq<char>) -> Seq<char> {
    joined(joined(home, ".ssh"@), "id_rsa"@)
}

/// The known-hosts file.
pub open spec fn known_hosts_path_under(home: Seq<char>) -> Seq<char> {
    joined(joined(home, ".ssh"@), "known_hosts"@)
}

/// The operation talks to the remote, and is run with a remote-shell
/// command that names the private key.
pub open spec fn names_key(op: GitOp) -> bool {
    op == GitOp::Clone || op == GitOp::PushPrimary || op == GitOp::PushSecondary || op
        == GitOp::ForcePushSecondary
}

/// The working copy of `repo_url` for a given configuration directory.
pub fn repo_path_in(config_dir: &str, repo_url: &str) -> (r: String)
    ensures
        r@ == repo_path_under(config_dir@, repo_url@),
{
    let agent = join(config_dir, "giterdone");
    let name = repo_name(repo_url);
    join(agent.as_str(), name.as_str())
}

/// The configuration file for a given configuration directory.
pub fn config_path_in(config_dir: &str) -> (r: String)
    ensures
        r@ == config_path_under(config_dir@),
{
    let agent = join(config_dir, "giterdone");
    join(agent.as_str(), "config.json")
}

/// The log file for a given configuration directory.
pub fn log_path_in(config_dir: &str) -> (r: String)
    ensures
        r@ == log_path_under(config_dir@),
{
    let agent = join(config_dir, "giterdone");
    let logs = join(agent.as_str(), "logs");
    join(logs.as_str(), "giterdone.log")
}

/// The private key for a given home directory.
pub fn key_path_in(home: &str) -> (r: String)
    ensures
        r@ == key_path_under(home@),
{
    let ssh = join(home, ".ssh");
    join(ssh.as_str(), "id_rsa")
}

/// The known-hosts file for a given home directory.
pub fn known_hosts_path_in(home: &str) -> (r: String)
    ensures
        r@ == known_hosts_path_under(home@),
{
    let ssh = join(home, ".ssh");
    join(ssh.as_str(), "known_hosts")
}

/// The working copy of `repo_url` under the user's configuration directory;
/// `None` where no such directory is known.
pub fn get_repo_path(repo_url: &str) -> (r: Option<String>)
    ensures
        r is Some ==> exists|dir: Seq<char>| r.unwrap()@ == #[trigger] repo_path_under(dir, repo_url@),
{
    match config_dir() {
        Some(dir) => {
            let p = repo_path_in(dir.as_str(), repo_url);
            assert(p@ == repo_path_under(dir@, repo_url@));
            Some(p)
        },
        None => None,
    }
}

/// The configuration file under the user's configuration directory; `None`
/// where no such directory is known.
pub fn config_path() -> (r: Option<String>)
    ensures
        r is Some ==> exists|dir: Seq<char>| r.unwrap()@ == #[trigger] config_path_under(dir),
{
    match config_dir() {
        Some(dir) => {
            let p = config_path_in(dir.as_str());
            assert(p@ == config_path_under(dir@));
            Some(p)
        },
        None => None,
    }
}

/// The log file under the user's configuration directory; `None` where no
/// such directory is known.
pub fn log_path() -> (r: Option<String>)
    ensures
        r is Some ==> exists|dir: Seq<char>| r.unwrap()@ == #[trigger] log_path_under(dir),
{
    match config_dir() {
        Some(dir) => {
            let p = log_path_in(dir.as_str());
            assert(p@ == log_path_under(dir@));
            Some(p)
        },
        None => None,
    }
}

/// The private key under the user's home directory; `None` where no home
/// directory is known.
pub fn get_ssh_key_path() -> (r: Option<String>)
    ensures
        r is Some ==> exists|home: Seq<char>| r.unwrap()@ == #[trigger] key_path_under(home),
{
    match home_dir() {
        Some(home) => {
            let p = key_path_in(home.as_str());
            assert(p@ == key_path_under(home@));
            Some(p)
        },
        None => None,
    }
}

/// The known-hosts file under the user's home directory; `None` where no
/// home directory is known.
pub fn known_hosts_path() -> (r: Option<String>)
    ensures
        r is Some ==> exists|home: Seq<char>|
            r.unwrap()@ == #[trigger] known_hosts_path_under(home),
{
    match home_dir() {
        Some(home) => {
            let p = known_hosts_path_in(home.as_str());
            assert(p@ == known_hosts_path_under(home@));
            Some(p)
        },
        None => None,
    }
}

/// Whether `op` is run with a remote-shell command that names the private
/// key.
pub fn uses_key(op: GitOp) -> (r: bool)
    ensures
        r == names_key(op),
{
    match op {
        GitOp::Clone | GitOp::PushPrimary | GitOp::PushSecondary | GitOp::ForcePushSecondary => true,
        _ => false,
    }
}

/// The remote-shell command that names the private key at `key_path`.
pub fn ssh_command(key_path: &str) -> (r: String)
    ensures
        r@ == "ssh -i "@ + key_path@,
{
    let mut out = String::from_str("ssh -i ");
    out.append(key_path);
    out
}

} // verus!
