//! What a run needs in place before it talks to the remote: a private key
//! and the remote's host key. The decisions are made here; asking the
//! operator and writing files is the caller's part.

use vstd::prelude::*;
use crate::path::str_eq;
use crate::text::{contains, occurs};

verus! {

/// What is to be done about the trust material.
#[derive(Clone, Copy, Debug, PartialEq, Eq, Structural)]
pub enum TrustAction {
    /// Ask the operator for a private key and store it.
    ProvideKey,
    /// Ask the operator whether the host key may be registered, and do so.
    RegisterHost,
    /// Everything is in place.
    Proceed,
}

/// The known-hosts text, where there is one, names the host.
pub open spec fn host_listed(known_hosts: Option<&str>) -> bool {
    match known_hosts {
        Some(text) => occurs(text@, "github.com"@),
        None => false,
    }
}

/// What is to be done next: the key comes first, then the host key.
pub open spec fn trust_action(key_exists: bool, host_known: bool) -> TrustAction {
    if !key_exists {
        TrustAction::ProvideKey
    } else if !host_known {
        TrustAction::RegisterHost
    } else {
        TrustAction::Proceed
    }
}

/// What an answer to a yes-or-no question means, if anything.
pub open spec fn answer_of(input: Seq<char>) -> Option<bool> {
    if input == "y"@ || input == "yes"@ {
        Some(true)
    } else if input == "n"@ || input == "no"@ {
        Some(false)
    } else {
        None
    }
}

/// Why a run cannot go on after the operator declined.
pub open spec fn declined_text(action: TrustAction) -> Seq<char> {
    match action {
        TrustAction::ProvideKey => "SSH key not provided. Cannot proceed with Git operations."@,
        TrustAction::RegisterHost =>
            "GitHub's host key not added to known_hosts. Cannot proceed with Git operations."@,
        TrustAction::Proceed => ""@,
    }
}

/// Whether the known-hosts text names the host; `None` stands for a file
/// that is missing or cannot be read.
pub fn github_known(known_hosts: Option<&str>) -> (r: bool)
    ensures
        r == host_listed(known_hosts),
{
    match known_hosts {
        Some(text) => contains(text, "github.com"),
        None => false,
    }
}

/// What is to be done next about the trust material.
pub fn ensure_ssh_setup(key_exists: bool, host_known: bool) -> (r: TrustAction)
    ensures
        r == trust_action(key_exists, host_known),
{
    if !key_exists {
        TrustAction::ProvideKey
    } else if !host_known {
        TrustAction::RegisterHost
    } else {
        TrustAction::Proceed
    }
}

/// Reads an answer to a yes-or-no question, given in lower case.
pub fn parse_answer(input: &str) -> (r: Option<bool>)
    ensures
        r == answer_of(input@),
{
    if str_eq(input, "y") || str_eq(input, "yes") {
        Some(true)
    } else if str_eq(input, "n") || str_eq(input, "no") {
        Some(false)
    } else {
        None
    }
}

/// Why a run cannot go on after the operator declined `action`.
pub fn declined_message(action: TrustAction) -> (r: &'static str)
    ensures
        r@ == declined_text(action),
{
    match action {
        TrustAction::ProvideKey => "SSH key not provided. Cannot proceed with Git operations.",
        TrustAction::RegisterHost =>
            "GitHub's host key not added to known_hosts. Cannot proceed with Git operations.",
        TrustAction::Proceed => "",
    }
}

} // verus!
