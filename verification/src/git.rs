//! The repository state machine: which version-control operation follows
//! which, given how the one before it ended.
//!
//! The machine never runs anything itself. A state of the form
//! `Running(op)` asks the caller to perform `op` and to come back with its
//! outcome; every other state is a place to stop.

use vstd::prelude::*;
use crate::clock::{format_at, now, written, Moment};
use crate::config::{AuthMethod, Config};
use crate::text::{
    chars_of, contains, contains_word, has_word, last_segment, last_segment_start,
    lemma_segment_start, occurs, replace, replaced, texts, trim_end, trimmed_end,
};

verus! {

/// A version-control operation the machine can ask for.
#[derive(Clone, Copy, Debug, PartialEq, Eq, Structural)]
pub enum GitOp {
    /// Clone the remote into the working copy.
    Clone,
    /// List the remotes the working copy is configured with.
    ListRemotes,
    /// Fetch from the remote.
    Fetch,
    /// List the branches the remote exposes.
    ListRemoteBranches,
    /// Reset the working copy hard to the remote primary branch.
    ResetToPrimary,
    /// Create the primary branch locally.
    CreatePrimary,
    /// Push the primary branch and set it to track upstream.
    PushUpstream,
    /// Create the secondary branch locally.
    CreateSecondary,
    /// Stage every change.
    StageAll,
    /// Commit what is staged.
    Commit,
    /// Push to the primary branch.
    PushPrimary,
    /// Push to the secondary branch.
    PushSecondary,
    /// Push to the secondary branch, overwriting its history.
    ForcePushSecondary,
}

/// Why a run failed.
#[derive(Clone, Copy, Debug, PartialEq, Eq, Structural)]
pub enum Failure {
    /// The operation ended in failure and nothing excuses it.
    CommandFailed(GitOp),
    /// The working copy belongs to another remote.
    RemoteMismatch,
}

/// Where a run stands.
#[derive(Clone, Copy, Debug, PartialEq, Eq, Structural)]
pub enum RepoState {
    /// No working copy exists yet.
    Absent,
    /// A working copy exists and has not been brought up to date.
    ClonedStale,
    /// The operation is to be performed; its outcome decides what follows.
    Running(GitOp),
    /// The working copy matches the remote.
    ClonedSynced,
    /// The commit stands and nothing is to be pushed.
    Committed,
    PushedPrimary,
    PushedSecondary,
    PushedSecondaryForced,
    Failed(Failure),
}

/// A rung of the push ladder.
#[derive(Clone, Copy, Debug, PartialEq, Eq, Structural)]
pub enum Rung {
    /// A plain push to the primary branch.
    Primary,
    /// A plain push to the secondary branch.
    Secondary,
    /// A push to the secondary branch that overwrites its history.
    ForcedSecondary,
}

/// How a push ended.
#[derive(Clone, Copy, Debug, PartialEq, Eq, Structural)]
pub enum PushReply {
    Accepted,
    /// Refused because local and remote history have diverged.
    RejectedDivergent,
    /// Refused for any other reason.
    RejectedOther,
}

/// How an operation ended: its status and the diagnostic text it left.
#[derive(Clone, Debug)]
pub struct GitOutcome {
    pub success: bool,
    pub output: String,
}

/// The remote in the form that is used over SSH: each `https://github.com/`
/// becomes `git@github.com:`, and a trailing `.git` is dropped.
pub open spec fn ssh_form(url: Seq<char>) -> Seq<char> {
    trimmed_end(replaced(url, "https://github.com/"@, "git@github.com:"@), ".git"@)
}

/// The remote as the chosen way of authenticating addresses it.
pub open spec fn remote_form(config: Config) -> Seq<char> {
    match config.auth {
        AuthMethod::Ssh => ssh_form(config.repo_url@),
        AuthMethod::Pat(_) => config.repo_url@,
    }
}

/// The diagnostic text tells of a push refused because it is no
/// fast-forward: local and remote history have diverged. A refusal by the
/// remote for another reason does not count.
pub open spec fn tells_divergence(output: Seq<char>) -> bool {
    occurs(output, "[rejected]"@) || occurs(output, "non-fast-forward"@) || occurs(
        output,
        "fetch first"@,
    )
}

/// The listing of remote branches names the primary branch of the remote:
/// `origin/main` stands in it as a whole name, not as the start of a longer
/// one.
pub open spec fn exposes_primary(listing: Seq<char>) -> bool {
    has_word(listing, "origin/main"@)
}

/// The listing of remotes names the address `expected` as a whole, not as
/// part of a longer address.
pub open spec fn remote_listed(listing: Seq<char>, expected: Seq<char>) -> bool {
    has_word(listing, expected)
}

/// The diagnostic text tells that there was nothing to commit.
pub open spec fn tells_nothing_to_commit(output: Seq<char>) -> bool {
    occurs(output, "nothing to commit"@) || occurs(output, "no changes added to commit"@)
}

/// How a push with this outcome ended.
pub open spec fn push_reply(outcome: GitOutcome) -> PushReply {
    if outcome.success {
        PushReply::Accepted
    } else if tells_divergence(outcome.output@) {
        PushReply::RejectedDivergent
    } else {
        PushReply::RejectedOther
    }
}

/// A commit with this outcome counts as done: it succeeded, or there was
/// nothing to commit.
pub open spec fn commit_done(outcome: GitOutcome) -> bool {
    outcome.success || tells_nothing_to_commit(outcome.output@)
}

/// The state that follows a commit.
pub open spec fn after_commit(outcome: GitOutcome, dry_run: bool) -> RepoState {
    if !commit_done(outcome) {
        RepoState::Failed(Failure::CommandFailed(GitOp::Commit))
    } else if dry_run {
        RepoState::Committed
    } else {
        RepoState::Running(GitOp::PushPrimary)
    }
}

/// The operation that climbs a rung.
pub open spec fn rung_op(rung: Rung) -> GitOp {
    match rung {
        Rung::Primary => GitOp::PushPrimary,
        Rung::Secondary => GitOp::PushSecondary,
        Rung::ForcedSecondary => GitOp::ForcePushSecondary,
    }
}

/// The state that follows a push: the ladder goes from the primary branch
/// to the secondary, and from there to a forced push, one rung for each
/// refusal over diverged history. Any other refusal ends it.
pub open spec fn after_push(rung: Rung, outcome: GitOutcome) -> RepoState {
    match (rung, push_reply(outcome)) {
        (Rung::Primary, PushReply::Accepted) => RepoState::PushedPrimary,
        (Rung::Primary, PushReply::RejectedDivergent) => RepoState::Running(GitOp::PushSecondary),
        (Rung::Secondary, PushReply::Accepted) => RepoState::PushedSecondary,
        (Rung::Secondary, PushReply::RejectedDivergent) => RepoState::Running(
            GitOp::ForcePushSecondary,
        ),
        (Rung::ForcedSecondary, PushReply::Accepted) => RepoState::PushedSecondaryForced,
        _ => RepoState::Failed(Failure::CommandFailed(rung_op(rung))),
    }
}

/// The operation is a rung of the push ladder.
pub open spec fn is_push(op: GitOp) -> bool {
    op == GitOp::PushPrimary || op == GitOp::PushSecondary || op == GitOp::ForcePushSecondary
}

/// One step of bringing the working copy up to date.
///
/// A missing working copy is cloned. An existing one is first checked
/// against the configured remote, then fetched; where the remote exposes the
/// primary branch the working copy is reset to it, else the primary branch
/// is created (a failure there is let pass) and pushed upstream. Last, the
/// secondary branch is created, and a failure there is let pass too.
pub open spec fn ensure_repo_step(
    expected_remote: Seq<char>,
    state: RepoState,
    outcome: Option<GitOutcome>,
) -> RepoState {
    match state {
        RepoState::Absent => RepoState::Running(GitOp::Clone),
        RepoState::ClonedStale => RepoState::Running(GitOp::ListRemotes),
        RepoState::Running(op) => match outcome {
            None => state,
            Some(o) => match op {
                GitOp::Clone => if o.success {
                    RepoState::ClonedSynced
                } else {
                    RepoState::Failed(Failure::CommandFailed(op))
                },
                GitOp::ListRemotes => if !o.success {
                    RepoState::Failed(Failure::CommandFailed(op))
                } else if remote_listed(o.output@, expected_remote) {
                    RepoState::Running(GitOp::Fetch)
                } else {
                    RepoState::Failed(Failure::RemoteMismatch)
                },
                GitOp::Fetch => if o.success {
                    RepoState::Running(GitOp::ListRemoteBranches)
                } else {
                    RepoState::Failed(Failure::CommandFailed(op))
                },
                GitOp::ListRemoteBranches => if !o.success {
                    RepoState::Failed(Failure::CommandFailed(op))
                } else if exposes_primary(o.output@) {
                    RepoState::Running(GitOp::ResetToPrimary)
                } else {
                    RepoState::Running(GitOp::CreatePrimary)
                },
                GitOp::ResetToPrimary => if o.success {
                    RepoState::Running(GitOp::CreateSecondary)
                } else {
                    RepoState::Failed(Failure::CommandFailed(op))
                },
                GitOp::CreatePrimary => RepoState::Running(GitOp::PushUpstream),
                GitOp::PushUpstream => if o.success {
                    RepoState::Running(GitOp::CreateSecondary)
                } else {
                    RepoState::Failed(Failure::CommandFailed(op))
                },
                GitOp::CreateSecondary => RepoState::ClonedSynced,
                _ => state,
            },
        },
        _ => state,
    }
}

/// One step of recording and publishing what the working copy holds: stage,
/// commit, and, unless this is a dry run, climb the push ladder.
pub open spec fn add_commit_push_step(
    state: RepoState,
    outcome: Option<GitOutcome>,
    dry_run: bool,
) -> RepoState {
    match state {
        RepoState::ClonedSynced => RepoState::Running(GitOp::StageAll),
        RepoState::Running(op) => match outcome {
            None => state,
            Some(o) => match op {
                GitOp::StageAll => if o.success {
                    RepoState::Running(GitOp::Commit)
                } else {
                    RepoState::Failed(Failure::CommandFailed(op))
                },
                GitOp::Commit => after_commit(o, dry_run),
                GitOp::PushPrimary => after_push(Rung::Primary, o),
                GitOp::PushSecondary => after_push(Rung::Secondary, o),
                GitOp::ForcePushSecondary => after_push(Rung::ForcedSecondary, o),
                _ => state,
            },
        },
        _ => state,
    }
}

/// What an optional outcome holds.
pub open spec fn outcome_of(outcome: Option<&GitOutcome>) -> Option<GitOutcome> {
    match outcome {
        Some(o) => Some(*o),
        None => None,
    }
}

/// The remote in its SSH form.
pub fn convert_https_to_ssh(https_url: &str) -> (r: String)
    ensures
        r@ == ssh_form(https_url@),
{
    let swapped = replace(https_url, "https://github.com/", "git@github.com:");
    String::from_str(trim_end(swapped.as_str(), ".git"))
}

/// The remote as the configured way of authenticating addresses it: what a
/// clone is given and what the working copy's remotes must show.
pub fn clone_url(config: &Config) -> (r: String)
    ensures
        r@ == remote_form(*config),
{
    match &config.auth {
        AuthMethod::Ssh => convert_https_to_ssh(config.repo_url.as_str()),
        AuthMethod::Pat(_) => config.repo_url.clone(),
    }
}

/// Checks a listing of the working copy's remotes against the configured
/// remote: the listing has to name it, as a whole address.
pub fn validate_remote(config: &Config, listing: &str) -> (r: Result<(), Failure>)
    ensures
        r is Ok <==> remote_listed(listing@, remote_form(*config)),
        r is Err ==> r == Err::<(), Failure>(Failure::RemoteMismatch),
{
    let expected = clone_url(config);
    if contains_word(listing, expected.as_str()) {
        Ok(())
    } else {
        Err(Failure::RemoteMismatch)
    }
}

/// Whether a listing of remote branches names the primary branch of the
/// remote.
pub fn has_primary_branch(listing: &str) -> (r: bool)
    ensures
        r == exposes_primary(listing@),
{
    contains_word(listing, "origin/main")
}

/// How a push with this outcome ended.
pub fn classify_push(outcome: &GitOutcome) -> (r: PushReply)
    ensures
        r == push_reply(*outcome),
{
    if outcome.success {
        PushReply::Accepted
    } else if contains(outcome.output.as_str(), "[rejected]") || contains(
        outcome.output.as_str(),
        "non-fast-forward",
    ) || contains(outcome.output.as_str(), "fetch first") {
        PushReply::RejectedDivergent
    } else {
        PushReply::RejectedOther
    }
}

/// The state that follows a commit with this outcome. Nothing to commit is
/// no failure.
pub fn commit(outcome: &GitOutcome, dry_run: bool) -> (r: RepoState)
    ensures
        r == after_commit(*outcome, dry_run),
{
    let done: bool = outcome.success || contains(outcome.output.as_str(), "nothing to commit")
        || contains(outcome.output.as_str(), "no changes added to commit");
    if !done {
        RepoState::Failed(Failure::CommandFailed(GitOp::Commit))
    } else if dry_run {
        RepoState::Committed
    } else {
        RepoState::Running(GitOp::PushPrimary)
    }
}

/// The state that follows the push `rung` with this outcome.
pub fn push(rung: Rung, outcome: &GitOutcome) -> (r: RepoState)
    ensures
        r == after_push(rung, *outcome),
{
    let reply = classify_push(outcome);
    match (rung, reply) {
        (Rung::Primary, PushReply::Accepted) => RepoState::PushedPrimary,
        (Rung::Primary, PushReply::RejectedDivergent) => RepoState::Running(GitOp::PushSecondary),
        (Rung::Secondary, PushReply::Accepted) => RepoState::PushedSecondary,
        (Rung::Secondary, PushReply::RejectedDivergent) => RepoState::Running(
            GitOp::ForcePushSecondary,
        ),
        (Rung::ForcedSecondary, PushReply::Accepted) => RepoState::PushedSecondaryForced,
        (Rung::Primary, _) => RepoState::Failed(Failure::CommandFailed(GitOp::PushPrimary)),
        (Rung::Secondary, _) => RepoState::Failed(Failure::CommandFailed(GitOp::PushSecondary)),
        (Rung::ForcedSecondary, _) => RepoState::Failed(
            Failure::CommandFailed(GitOp::ForcePushSecondary),
        ),
    }
}

/// One step of bringing the working copy up to date. Start from `Absent`
/// or `ClonedStale`; perform the operation of each `Running` state that
/// comes back and hand in its outcome; stop at any other state.
pub fn ensure_repo(config: &Config, state: RepoState, outcome: Option<&GitOutcome>) -> (r:
    RepoState)
    ensures
        r == ensure_repo_step(remote_form(*config), state, outcome_of(outcome)),
{
    match state {
        RepoState::Absent => RepoState::Running(GitOp::Clone),
        RepoState::ClonedStale => RepoState::Running(GitOp::ListRemotes),
        RepoState::Running(op) => match outcome {
            None => state,
            Some(o) => match op {
                GitOp::Clone => if o.success {
                    RepoState::ClonedSynced
                } else {
                    RepoState::Failed(Failure::CommandFailed(op))
                },
                GitOp::ListRemotes => if !o.success {
                    RepoState::Failed(Failure::CommandFailed(op))
                } else {
                    match validate_remote(config, o.output.as_str()) {
                        Ok(_) => RepoState::Running(GitOp::Fetch),
                        Err(f) => RepoState::Failed(f),
                    }
                },
                GitOp::Fetch => if o.success {
                    RepoState::Running(GitOp::ListRemoteBranches)
                } else {
                    RepoState::Failed(Failure::CommandFailed(op))
                },
                GitOp::ListRemoteBranches => if !o.success {
                    RepoState::Failed(Failure::CommandFailed(op))
                } else if has_primary_branch(o.output.as_str()) {
                    RepoState::Running(GitOp::ResetToPrimary)
                } else {
                    RepoState::Running(GitOp::CreatePrimary)
                },
                GitOp::ResetToPrimary => if o.success {
                    RepoState::Running(GitOp::CreateSecondary)
                } else {
                    RepoState::Failed(Failure::CommandFailed(op))
                },
                GitOp::CreatePrimary => RepoState::Running(GitOp::PushUpstream),
                GitOp::PushUpstream => if o.success {
                    RepoState::Running(GitOp::CreateSecondary)
                } else {
                    RepoState::Failed(Failure::CommandFailed(op))
                },
                GitOp::CreateSecondary => RepoState::ClonedSynced,
                _ => state,
            },
        },
        _ => state,
    }
}

/// One step of recording and publishing what the working copy holds. Start
/// from `ClonedSynced`; perform the operation of each `Running` state that
/// comes back and hand in its outcome; stop at any other state. In a dry
/// run the machine stops at `Committed` and never asks for a push.
pub fn add_commit_push(state: RepoState, outcome: Option<&GitOutcome>, dry_run: bool) -> (r:
    RepoState)
    ensures
        r == add_commit_push_step(state, outcome_of(outcome), dry_run),
{
    match state {
        RepoState::ClonedSynced => RepoState::Running(GitOp::StageAll),
        RepoState::Running(op) => match outcome {
            None => state,
            Some(o) => match op {
                GitOp::StageAll => if o.success {
                    RepoState::Running(GitOp::Commit)
                } else {
                    RepoState::Failed(Failure::CommandFailed(op))
                },
                GitOp::Commit => commit(o, dry_run),
                GitOp::PushPrimary => push(Rung::Primary, o),
                GitOp::PushSecondary => push(Rung::Secondary, o),
                GitOp::ForcePushSecondary => push(Rung::ForcedSecondary, o),
                _ => state,
            },
        },
        _ => state,
    }
}

/// The words of the command line that performs `op`, behind the name of the
/// tool. A clone is given the remote; the caller adds where to clone to.
pub open spec fn op_args(op: GitOp, remote: Seq<char>, message: Seq<char>, dry_run: bool) -> Seq<
    Seq<char>,
> {
    match op {
        GitOp::Clone => seq!["clone"@, remote],
        GitOp::ListRemotes => seq!["remote"@, "-v"@],
        GitOp::Fetch => seq!["fetch"@, "origin"@],
        GitOp::ListRemoteBranches => seq!["branch"@, "-r"@],
        GitOp::ResetToPrimary => seq!["reset"@, "--hard"@, "origin/main"@],
        GitOp::CreatePrimary => seq!["checkout"@, "-b"@, "main"@],
        GitOp::PushUpstream => seq!["push"@, "-u"@, "origin"@, "main"@],
        GitOp::CreateSecondary => seq!["checkout"@, "-b"@, "alt"@],
        GitOp::StageAll => seq!["add"@, "."@],
        GitOp::Commit => if dry_run {
            seq!["commit"@, "-m"@, message, "--dry-run"@]
        } else {
            seq!["commit"@, "-m"@, message]
        },
        GitOp::PushPrimary => seq!["push"@, "origin"@, "main"@],
        GitOp::PushSecondary => seq!["push"@, "origin"@, "alt"@],
        GitOp::ForcePushSecondary => seq!["push"@, "--force"@, "origin"@, "alt"@],
    }
}

/// What records call `op`.
pub open spec fn op_name(op: GitOp) -> Seq<char> {
    match op {
        GitOp::Clone => "clone"@,
        GitOp::ListRemotes => "remote -v"@,
        GitOp::Fetch => "fetch"@,
        GitOp::ListRemoteBranches => "branch -r"@,
        GitOp::ResetToPrimary => "reset --hard"@,
        GitOp::CreatePrimary => "checkout -b main"@,
        GitOp::PushUpstream => "push -u origin main"@,
        GitOp::CreateSecondary => "checkout -b alt"@,
        GitOp::StageAll => "add"@,
        GitOp::Commit => "commit"@,
        GitOp::PushPrimary => "push to main"@,
        GitOp::PushSecondary => "push to alt"@,
        GitOp::ForcePushSecondary => "force push to alt"@,
    }
}

/// A list of owned strings with the given words.
fn words2(a: &str, b: &str) -> (r: Vec<String>)
    ensures
        texts(r@) == seq![a@, b@],
{
    let mut v: Vec<String> = Vec::new();
    v.push(String::from_str(a));
    v.push(String::from_str(b));
    assert(texts(v@) =~= seq![a@, b@]);
    v
}

/// A list of owned strings with the given words.
fn words3(a: &str, b: &str, c: &str) -> (r: Vec<String>)
    ensures
        texts(r@) == seq![a@, b@, c@],
{
    let mut v: Vec<String> = Vec::new();
    v.push(String::from_str(a));
    v.push(String::from_str(b));
    v.push(String::from_str(c));
    assert(texts(v@) =~= seq![a@, b@, c@]);
    v
}

/// A list of owned strings with the given words.
fn words4(a: &str, b: &str, c: &str, d: &str) -> (r: Vec<String>)
    ensures
        texts(r@) == seq![a@, b@, c@, d@],
{
    let mut v: Vec<String> = Vec::new();
    v.push(String::from_str(a));
    v.push(String::from_str(b));
    v.push(String::from_str(c));
    v.push(String::from_str(d));
    assert(texts(v@) =~= seq![a@, b@, c@, d@]);
    v
}

/// The words of the command line that performs `op`, behind the name of the
/// tool.
pub fn command_args(op: GitOp, remote: &str, message: &str, dry_run: bool) -> (r: Vec<String>)
    ensures
        texts(r@) == op_args(op, remote@, message@, dry_run),
{
    match op {
        GitOp::Clone => words2("clone", remote),
        GitOp::ListRemotes => words2("remote", "-v"),
        GitOp::Fetch => words2("fetch", "origin"),
        GitOp::ListRemoteBranches => words2("branch", "-r"),
        GitOp::ResetToPrimary => words3("reset", "--hard", "origin/main"),
        GitOp::CreatePrimary => words3("checkout", "-b", "main"),
        GitOp::PushUpstream => words4("push", "-u", "origin", "main"),
        GitOp::CreateSecondary => words3("checkout", "-b", "alt"),
        GitOp::StageAll => words2("add", "."),
        GitOp::Commit => if dry_run {
            words4("commit", "-m", message, "--dry-run")
        } else {
            words3("commit", "-m", message)
        },
        GitOp::PushPrimary => words3("push", "origin", "main"),
        GitOp::PushSecondary => words3("push", "origin", "alt"),
        GitOp::ForcePushSecondary => words4("push", "--force", "origin", "alt"),
    }
}

/// What records call `op`.
pub fn operation_name(op: GitOp) -> (r: &'static str)
    ensures
        r@ == op_name(op),
{
    match op {
        GitOp::Clone => "clone",
        GitOp::ListRemotes => "remote -v",
        GitOp::Fetch => "fetch",
        GitOp::ListRemoteBranches => "branch -r",
        GitOp::ResetToPrimary => "reset --hard",
        GitOp::CreatePrimary => "checkout -b main",
        GitOp::PushUpstream => "push -u origin main",
        GitOp::CreateSecondary => "checkout -b alt",
        GitOp::StageAll => "add",
        GitOp::Commit => "commit",
        GitOp::PushPrimary => "push to main",
        GitOp::PushSecondary => "push to alt",
        GitOp::ForcePushSecondary => "force push to alt",
    }
}

/// The record written before `op` is performed.
pub fn record_before(op: GitOp) -> (r: String)
    ensures
        r@ == "Executing git "@ + op_name(op),
{
    let mut out = String::from_str("Executing git ");
    out.append(operation_name(op));
    out
}

/// The record written after `op` was performed: that it went well, or that
/// it failed, with the status and the diagnostic text.
pub fn record_after(op: GitOp, success: bool, status: &str, diagnostics: &str) -> (r: String)
    ensures
        success ==> r@ == "git "@ + op_name(op) + " successful"@,
        !success ==> r@ == "git "@ + op_name(op) + " failed: "@ + status@ + "\n"@ + diagnostics@,
{
    let mut out = String::from_str("git ");
    out.append(operation_name(op));
    if success {
        out.append(" successful");
    } else {
        out.append(" failed: ");
        out.append(status);
        out.append("\n");
        out.append(diagnostics);
    }
    out
}

/// The working copy's directory name: what follows the last `/` of the
/// remote, without any trailing `.git`.
pub open spec fn repo_name_of(url: Seq<char>) -> Seq<char> {
    trimmed_end(last_segment(url, '/'), ".git"@)
}

/// The working copy's directory name for a remote.
pub fn repo_name(repo_url: &str) -> (r: String)
    ensures
        r@ == repo_name_of(repo_url@),
{
    let uv = chars_of(repo_url);
    let k: usize = last_segment_start(uv.as_slice(), '/');
    proof {
        lemma_segment_start(repo_url@, '/');
    }
    let last: &str = repo_url.substring_char(k, uv.len());
    String::from_str(trim_end(last, ".git"))
}

/// The operation asks for a push.
pub open spec fn asks_push(state: RepoState) -> bool {
    match state {
        RepoState::Running(op) => is_push(op),
        _ => false,
    }
}

/// How many operations a run can still ask for, at most.
pub open spec fn operations_left(state: RepoState) -> nat {
    match state {
        RepoState::ClonedStale => 13,
        RepoState::Running(GitOp::ListRemotes) => 12,
        RepoState::Running(GitOp::Fetch) => 11,
        RepoState::Running(GitOp::ListRemoteBranches) => 10,
        RepoState::Running(GitOp::CreatePrimary) => 9,
        RepoState::Running(GitOp::PushUpstream) => 8,
        RepoState::Running(GitOp::ResetToPrimary) => 8,
        RepoState::Absent => 8,
        RepoState::Running(GitOp::Clone) => 7,
        RepoState::Running(GitOp::CreateSecondary) => 7,
        RepoState::ClonedSynced => 6,
        RepoState::Running(GitOp::StageAll) => 5,
        RepoState::Running(GitOp::Commit) => 4,
        RepoState::Running(GitOp::PushPrimary) => 3,
        RepoState::Running(GitOp::PushSecondary) => 2,
        RepoState::Running(GitOp::ForcePushSecondary) => 1,
        _ => 0,
    }
}

/// The state is one that bringing the working copy up to date moves on from,
/// once the outcome of its operation is known.
pub open spec fn syncing(state: RepoState) -> bool {
    match state {
        RepoState::Absent | RepoState::ClonedStale => true,
        RepoState::Running(op) => operations_left(state) >= 7,
        _ => false,
    }
}

/// The state is one that recording and publishing moves on from, once the
/// outcome of its operation is known.
pub open spec fn publishing(state: RepoState) -> bool {
    match state {
        RepoState::ClonedSynced => true,
        RepoState::Running(op) => 1 <= operations_left(state) <= 5,
        _ => false,
    }
}

/// A commit that fails because there is nothing to commit counts as done:
/// the run goes on, or ends in `Committed` in a dry run, and does not fail.
pub proof fn lemma_nothing_to_commit_succeeds(outcome: GitOutcome, dry_run: bool)
    requires
        tells_nothing_to_commit(outcome.output@),
    ensures
        add_commit_push_step(RepoState::Running(GitOp::Commit), Some(outcome), dry_run) == if dry_run {
            RepoState::Committed
        } else {
            RepoState::Running(GitOp::PushPrimary)
        },
{
}

/// A push to the primary branch that is refused over diverged history is
/// followed by a plain push to the secondary branch; refused for any other
/// reason it ends the run in failure, with no further attempt.
pub proof fn lemma_primary_rejection(outcome: GitOutcome, dry_run: bool)
    requires
        !outcome.success,
    ensures
        tells_divergence(outcome.output@) ==> add_commit_push_step(
            RepoState::Running(GitOp::PushPrimary),
            Some(outcome),
            dry_run,
        ) == RepoState::Running(GitOp::PushSecondary),
        !tells_divergence(outcome.output@) ==> add_commit_push_step(
            RepoState::Running(GitOp::PushPrimary),
            Some(outcome),
            dry_run,
        ) == RepoState::Failed(Failure::CommandFailed(GitOp::PushPrimary)),
{
}

/// A forced push is asked for only after a plain push to the secondary
/// branch was refused over diverged history, and a push to the secondary
/// branch only after one to the primary branch was so refused.
pub proof fn lemma_ladder_order(state: RepoState, outcome: GitOutcome, dry_run: bool)
    ensures
        add_commit_push_step(state, Some(outcome), dry_run) == RepoState::Running(
            GitOp::ForcePushSecondary,
        ) ==> state == RepoState::Running(GitOp::PushSecondary) && push_reply(outcome)
            == PushReply::RejectedDivergent,
        add_commit_push_step(state, Some(outcome), dry_run) == RepoState::Running(
            GitOp::PushSecondary,
        ) ==> state == RepoState::Running(GitOp::PushPrimary) && push_reply(outcome)
            == PushReply::RejectedDivergent,
{
}

/// On every rung, a refusal that is not over diverged history ends the push
/// ladder at once.
pub proof fn lemma_other_rejection_is_final(rung: Rung, outcome: GitOutcome, dry_run: bool)
    requires
        push_reply(outcome) == PushReply::RejectedOther,
    ensures
        add_commit_push_step(RepoState::Running(rung_op(rung)), Some(outcome), dry_run)
            == RepoState::Failed(Failure::CommandFailed(rung_op(rung))),
{
}

/// In a dry run no step asks for a push, unless one was already asked for.
pub proof fn lemma_dry_run_never_pushes(state: RepoState, outcome: Option<GitOutcome>)
    requires
        !asks_push(state),
    ensures
        !asks_push(add_commit_push_step(state, outcome, true)),
{
}

/// Bringing the working copy up to date never asks for staging, for a
/// commit or for a push of the ladder.
pub proof fn lemma_sync_stays_in_stage(
    expected_remote: Seq<char>,
    state: RepoState,
    outcome: Option<GitOutcome>,
)
    requires
        syncing(state),
    ensures
        ensure_repo_step(expected_remote, state, outcome) is Running ==> syncing(
            ensure_repo_step(expected_remote, state, outcome),
        ),
{
}

/// Every step that takes in an outcome brings the run closer to its end:
/// a run asks for at most thirteen operations.
pub proof fn lemma_steps_run_out(
    expected_remote: Seq<char>,
    state: RepoState,
    outcome: GitOutcome,
    dry_run: bool,
)
    ensures
        syncing(state) ==> operations_left(ensure_repo_step(expected_remote, state, Some(outcome)))
            < operations_left(state),
        publishing(state) ==> operations_left(add_commit_push_step(state, Some(outcome), dry_run))
            < operations_left(state),
        !syncing(state) ==> ensure_repo_step(expected_remote, state, Some(outcome)) == state,
        !publishing(state) ==> add_commit_push_step(state, Some(outcome), dry_run) == state,
{
}

/// A run fails only on an operation that ended in failure, or on a listing
/// of remotes that does not show the configured remote.
pub proof fn lemma_failure_has_cause(
    expected_remote: Seq<char>,
    state: RepoState,
    outcome: GitOutcome,
    dry_run: bool,
    why: Failure,
)
    requires
        state != RepoState::Failed(why),
    ensures
        ensure_repo_step(expected_remote, state, Some(outcome)) == RepoState::Failed(why) ==> {
            ||| (why == Failure::RemoteMismatch && state == RepoState::Running(GitOp::ListRemotes)
                && !remote_listed(outcome.output@, expected_remote))
            ||| (why != Failure::RemoteMismatch && state == RepoState::Running(why->CommandFailed_0)
                && !outcome.success)
        },
        add_commit_push_step(state, Some(outcome), dry_run) == RepoState::Failed(why) ==> why
            != Failure::RemoteMismatch && state == RepoState::Running(why->CommandFailed_0)
            && !outcome.success,
{
}

/// The command line of a commit made now: its message is the present
/// moment, written as the configured template asks. `None` where chrono
/// writes nothing for that template.
pub fn commit_args_now(config: &Config, dry_run: bool) -> (r: Option<Vec<String>>)
    ensures
        exists|at: Moment|
            args_of(r) == #[trigger] commit_args_for(at, config.commit_message_template@, dry_run),
{
    let at = now();
    let r = commit_args_at(config, at, dry_run);
    assert(args_of(r) == commit_args_for(at, config.commit_message_template@, dry_run));
    r
}

/// What an optional command line holds.
pub open spec fn args_of(args: Option<Vec<String>>) -> Option<Seq<Seq<char>>> {
    match args {
        Some(words) => Some(texts(words@)),
        None => None,
    }
}

/// The command line of a commit made at `at`: its message is that moment
/// written as `template` asks; none where nothing is written for it.
pub open spec fn commit_args_for(at: Moment, template: Seq<char>, dry_run: bool) -> Option<
    Seq<Seq<char>>,
> {
    match written(at, template) {
        Some(message) => Some(op_args(GitOp::Commit, ""@, message, dry_run)),
        None => None,
    }
}

/// The command line of a commit made at `at`, with the moment written as
/// the configured template asks for its message.
pub fn commit_args_at(config: &Config, at: Moment, dry_run: bool) -> (r: Option<Vec<String>>)
    ensures
        args_of(r) == commit_args_for(at, config.commit_message_template@, dry_run),
{
    match format_at(at, config.commit_message_template.as_str()) {
        Some(message) => Some(command_args(GitOp::Commit, "", message.as_str(), dry_run)),
        None => None,
    }
}

} // verus!
