//! The order of a backup run: which stage follows which, which failures end
//! the run, and what the operator is told.

use vstd::prelude::*;

verus! {

/// The stages of a run, in the order they are gone through.
#[derive(Clone, Copy, Debug, PartialEq, Eq, Structural)]
pub enum Stage {
    /// Load the configuration.
    LoadConfig,
    /// See that key and known hosts are in place.
    VerifyTrust,
    /// Bring the working copy up to date.
    EnsureRepository,
    /// Find the files to back up.
    Discover,
    /// Write the ignore patterns at the root of the working copy.
    WriteIgnore,
    /// Copy every eligible file into the working copy.
    CopyFiles,
    /// Commit, and push unless this is a dry run.
    CommitPush,
}

/// Where a run stands.
#[derive(Clone, Copy, Debug, PartialEq, Eq, Structural)]
pub enum RunState {
    /// The stage is to be performed next.
    At(Stage),
    Succeeded,
    /// The run ended because the stage failed.
    Aborted(Stage),
}

/// A failure in this stage is recorded and passed over.
pub open spec fn tolerated(stage: Stage) -> bool {
    stage == Stage::CopyFiles
}

/// What comes after a stage that does not end the run.
pub open spec fn following(stage: Stage) -> RunState {
    match stage {
        Stage::LoadConfig => RunState::At(Stage::VerifyTrust),
        Stage::VerifyTrust => RunState::At(Stage::EnsureRepository),
        Stage::EnsureRepository => RunState::At(Stage::Discover),
        Stage::Discover => RunState::At(Stage::WriteIgnore),
        Stage::WriteIgnore => RunState::At(Stage::CopyFiles),
        Stage::CopyFiles => RunState::At(Stage::CommitPush),
        Stage::CommitPush => RunState::Succeeded,
    }
}

/// One step of a run: a stage that went well, or whose failure is
/// tolerated, is followed by the next; any other failure ends the run at
/// that stage. A run that has ended stays where it is.
pub open spec fn run_step(state: RunState, ok: bool) -> RunState {
    match state {
        RunState::At(stage) => if ok || tolerated(stage) {
            following(stage)
        } else {
            RunState::Aborted(stage)
        },
        _ => state,
    }
}

/// How many stages a run still has before it.
pub open spec fn stages_left(state: RunState) -> nat {
    match state {
        RunState::At(Stage::LoadConfig) => 7,
        RunState::At(Stage::VerifyTrust) => 6,
        RunState::At(Stage::EnsureRepository) => 5,
        RunState::At(Stage::Discover) => 4,
        RunState::At(Stage::WriteIgnore) => 3,
        RunState::At(Stage::CopyFiles) => 2,
        RunState::At(Stage::CommitPush) => 1,
        _ => 0,
    }
}

/// What the operator is told when a stage fails, before the detail.
pub open spec fn failure_prefix(stage: Stage) -> Seq<char> {
    match stage {
        Stage::LoadConfig => "Failed to load config: "@,
        Stage::VerifyTrust => "SSH setup failed: "@,
        Stage::EnsureRepository => "Git repository validation failed: "@,
        Stage::Discover => "File discovery failed: "@,
        Stage::WriteIgnore => "Failed to write .gitignore: "@,
        Stage::CopyFiles => "Failed to copy file "@,
        Stage::CommitPush => "Backup process failed: "@,
    }
}

/// What the operator is told when a stage fails, behind the detail.
pub open spec fn failure_suffix(stage: Stage) -> Seq<char> {
    match stage {
        Stage::LoadConfig => ". Run 'giterdone init'."@,
        _ => ""@,
    }
}

/// What the operator is told at the end of a run that went well.
pub open spec fn success_text(dry_run: bool) -> Seq<char> {
    if dry_run {
        "Dry run successful."@
    } else {
        "Backup successful."@
    }
}

/// Where a run starts.
pub fn start() -> (r: RunState)
    ensures
        r == RunState::At(Stage::LoadConfig),
{
    RunState::At(Stage::LoadConfig)
}

/// One step of a run: takes in whether the stage at hand went well and
/// says where the run stands then.
pub fn run_backup(state: RunState, ok: bool) -> (r: RunState)
    ensures
        r == run_step(state, ok),
{
    match state {
        RunState::At(stage) => {
            let tolerant: bool = match stage {
                Stage::CopyFiles => true,
                _ => false,
            };
            if ok || tolerant {
                match stage {
                    Stage::LoadConfig => RunState::At(Stage::VerifyTrust),
                    Stage::VerifyTrust => RunState::At(Stage::EnsureRepository),
                    Stage::EnsureRepository => RunState::At(Stage::Discover),
                    Stage::Discover => RunState::At(Stage::WriteIgnore),
                    Stage::WriteIgnore => RunState::At(Stage::CopyFiles),
                    Stage::CopyFiles => RunState::At(Stage::CommitPush),
                    Stage::CommitPush => RunState::Succeeded,
                }
            } else {
                RunState::Aborted(stage)
            }
        },
        _ => state,
    }
}

/// What the operator is told, and the log is given, when a stage fails.
pub fn failure_message(stage: Stage, detail: &str) -> (r: String)
    ensures
        r@ == failure_prefix(stage) + detail@ + failure_suffix(stage),
{
    let prefix: &str = match stage {
        Stage::LoadConfig => "Failed to load config: ",
        Stage::VerifyTrust => "SSH setup failed: ",
        Stage::EnsureRepository => "Git repository validation failed: ",
        Stage::Discover => "File discovery failed: ",
        Stage::WriteIgnore => "Failed to write .gitignore: ",
        Stage::CopyFiles => "Failed to copy file ",
        Stage::CommitPush => "Backup process failed: ",
    };
    let suffix: &str = match stage {
        Stage::LoadConfig => ". Run 'giterdone init'.",
        _ => "",
    };
    let mut out = String::from_str(prefix);
    out.append(detail);
    out.append(suffix);
    out
}

/// What the operator is told, and the log is given, at the end of a run
/// that went well.
pub fn success_message(dry_run: bool) -> (r: &'static str)
    ensures
        r@ == success_text(dry_run),
{
    if dry_run {
        "Dry run successful."
    } else {
        "Backup successful."
    }
}

/// A run is fail-fast: a failing stage ends it there, unless the stage is
/// the copying of files, whose failures never end a run.
pub proof fn lemma_fail_fast(stage: Stage)
    ensures
        stage != Stage::CopyFiles ==> run_step(RunState::At(stage), false) == RunState::Aborted(
            stage,
        ),
        run_step(RunState::At(Stage::CopyFiles), false) == RunState::At(Stage::CommitPush),
        run_step(RunState::At(stage), true) == following(stage),
{
}

/// Every step brings a run closer to its end, and a run succeeds only by
/// its last stage going well.
pub proof fn lemma_run_ends(state: RunState, ok: bool)
    ensures
        state is At ==> stages_left(run_step(state, ok)) < stages_left(state),
        !(state is At) ==> run_step(state, ok) == state,
        state != RunState::Succeeded && run_step(state, ok) == RunState::Succeeded ==> state
            == RunState::At(Stage::CommitPush) && ok,
{
}

/// A stage is reached only from the stage before it, and only where that
/// one went well or its failure is tolerated: no file is copied before the
/// working copy was brought up to date and the ignore patterns were written.
pub proof fn lemma_stage_needs_predecessor(state: RunState, ok: bool, stage: Stage)
    requires
        run_step(state, ok) == RunState::At(stage),
        state != RunState::At(stage),
    ensures
        state is At,
        following(state->At_0) == RunState::At(stage),
        ok || tolerated(state->At_0),
        stage == Stage::CopyFiles ==> state == RunState::At(Stage::WriteIgnore) && ok,
        stage == Stage::WriteIgnore ==> state == RunState::At(Stage::Discover) && ok,
        stage == Stage::Discover ==> state == RunState::At(Stage::EnsureRepository) && ok,
{
}

} // verus!
