use giterdone::cli::{Cli, Commands};
use giterdone::config::{AuthMethod, Config};
use giterdone::clock::Moment;
use giterdone::git::{commit_args_at, commit_args_now};
use giterdone::locations::{
    config_path, config_path_in, get_repo_path, get_ssh_key_path, key_path_in, known_hosts_path,
    known_hosts_path_in, log_path, log_path_in, repo_path_in, ssh_command, uses_key,
};
use giterdone::git::GitOp;
use giterdone::logger::Logger;
use giterdone::orchestrator::{failure_message, run_backup, start, success_message, RunState, Stage};
use giterdone::scheduler::{job_command, setup_cron_job};
use giterdone::trust::{declined_message, ensure_ssh_setup, github_known, parse_answer, TrustAction};

fn config(template: &str) -> Config {
    Config {
        repo_url: "https://github.com/user/repo.git".to_string(),
        auth: AuthMethod::Ssh,
        files_to_backup: vec![],
        backup_schedule: "@daily".to_string(),
        commit_message_template: template.to_string(),
        log_file: "/tmp/giterdone.log".to_string(),
    }
}

const ORDER: [Stage; 7] = [
    Stage::LoadConfig,
    Stage::VerifyTrust,
    Stage::EnsureRepository,
    Stage::Discover,
    Stage::WriteIgnore,
    Stage::CopyFiles,
    Stage::CommitPush,
];

#[test]
fn stages_follow_in_order() {
    let mut state = start();
    for stage in ORDER {
        assert_eq!(state, RunState::At(stage));
        state = run_backup(state, true);
    }
    assert_eq!(state, RunState::Succeeded);
    assert_eq!(run_backup(state, true), RunState::Succeeded);
    assert_eq!(run_backup(state, false), RunState::Succeeded);
}

#[test]
fn a_failing_stage_ends_the_run() {
    for stage in ORDER {
        let next = run_backup(RunState::At(stage), false);
        if stage == Stage::CopyFiles {
            assert_eq!(next, RunState::At(Stage::CommitPush));
        } else {
            assert_eq!(next, RunState::Aborted(stage));
            assert_eq!(run_backup(next, true), RunState::Aborted(stage));
        }
    }
}

#[test]
fn dry_run_ends_with_its_own_message() {
    assert_eq!(success_message(true), "Dry run successful.");
    assert_eq!(success_message(false), "Backup successful.");
}

#[test]
fn failure_messages_name_the_stage() {
    assert_eq!(
        failure_message(Stage::LoadConfig, "No such file"),
        "Failed to load config: No such file. Run 'giterdone init'."
    );
    assert_eq!(failure_message(Stage::VerifyTrust, "x"), "SSH setup failed: x");
    assert_eq!(
        failure_message(Stage::EnsureRepository, "x"),
        "Git repository validation failed: x"
    );
    assert_eq!(failure_message(Stage::Discover, "x"), "File discovery failed: x");
    assert_eq!(failure_message(Stage::WriteIgnore, "x"), "Failed to write .gitignore: x");
    assert_eq!(failure_message(Stage::CopyFiles, "\"/a\": x"), "Failed to copy file \"/a\": x");
    assert_eq!(failure_message(Stage::CommitPush, "x"), "Backup process failed: x");
}

#[test]
fn trust_material_is_asked_for_in_order() {
    assert_eq!(ensure_ssh_setup(false, false), TrustAction::ProvideKey);
    assert_eq!(ensure_ssh_setup(false, true), TrustAction::ProvideKey);
    assert_eq!(ensure_ssh_setup(true, false), TrustAction::RegisterHost);
    assert_eq!(ensure_ssh_setup(true, true), TrustAction::Proceed);
}

#[test]
fn known_hosts_must_name_the_host() {
    assert!(github_known(Some("github.com ssh-rsa AAAA\n")));
    assert!(github_known(Some("gitlab.com ssh-rsa AAAA\n|1|x= github.com,140.82.112.3 ssh-ed25519 AAAA\n")));
    assert!(!github_known(Some("gitlab.com ssh-rsa AAAA\n")));
    assert!(!github_known(Some("")));
    assert!(!github_known(None));
}

#[test]
fn answers_are_read() {
    assert_eq!(parse_answer("y"), Some(true));
    assert_eq!(parse_answer("yes"), Some(true));
    assert_eq!(parse_answer("n"), Some(false));
    assert_eq!(parse_answer("no"), Some(false));
    assert_eq!(parse_answer(""), None);
    assert_eq!(parse_answer("yeah"), None);
    assert_eq!(parse_answer("Y"), None);
}

#[test]
fn declining_has_its_message() {
    assert_eq!(
        declined_message(TrustAction::ProvideKey),
        "SSH key not provided. Cannot proceed with Git operations."
    );
    assert_eq!(
        declined_message(TrustAction::RegisterHost),
        "GitHub's host key not added to known_hosts. Cannot proceed with Git operations."
    );
    assert_eq!(declined_message(TrustAction::Proceed), "");
}

#[test]
fn schedule_table_drops_earlier_jobs() {
    let current = "0 * * * * /usr/bin/foo\n@daily /opt/giterdone --run-now\n5 4 * * * /usr/bin/bar\n";
    assert_eq!(
        setup_cron_job(current, "@hourly", "/opt/giterdone --run-now"),
        "0 * * * * /usr/bin/foo\n5 4 * * * /usr/bin/bar\n@hourly /opt/giterdone --run-now\n"
    );
}

#[test]
fn schedule_table_is_stable_under_repetition() {
    let once = setup_cron_job("0 * * * * /usr/bin/foo\n", "@hourly", "/opt/giterdone --run-now");
    let twice = setup_cron_job(&once, "@hourly", "/opt/giterdone --run-now");
    assert_eq!(once, "0 * * * * /usr/bin/foo\n@hourly /opt/giterdone --run-now\n");
    assert_eq!(once, twice);
}

#[test]
fn schedule_table_edge_cases() {
    assert_eq!(setup_cron_job("", "@daily", "cmd"), "\n@daily cmd\n");
    assert_eq!(setup_cron_job("a\r\nb", "@daily", "cmd"), "a\nb\n@daily cmd\n");
    assert_eq!(setup_cron_job("a\n\nb\n", "@daily", "cmd"), "a\n\nb\n@daily cmd\n");
    assert_eq!(setup_cron_job("giterdone", "@daily", "cmd"), "\n@daily cmd\n");
    assert_eq!(setup_cron_job("a\r", "@daily", "cmd"), "a\r\n@daily cmd\n");
    assert_eq!(setup_cron_job("\n", "@daily", "cmd"), "\n@daily cmd\n");
}

#[test]
fn schedule_table_matches_line_splitting() {
    for current in ["x\ny\n", "x\r\n\r\ny", "\n\nx", "x giterdone y\nz\r\n", "é\nü giterdone\n"] {
        let kept: Vec<&str> = current.lines().filter(|l| !l.contains("giterdone")).collect();
        let expected = format!("{}\n{}\n", kept.join("\n"), "@daily cmd");
        assert_eq!(setup_cron_job(current, "@daily", "cmd"), expected);
    }
}

#[test]
fn job_command_runs_a_backup() {
    assert_eq!(job_command("/usr/local/bin/giterdone"), "/usr/local/bin/giterdone --run-now");
}

#[test]
fn log_line_format() {
    let logger = Logger::new("/tmp/giterdone.log".to_string());
    assert_eq!(logger.log_file, "/tmp/giterdone.log");
    assert_eq!(
        logger.line("2024-01-02 03:04:05", "Starting backup process..."),
        "[2024-01-02 03:04:05]: Starting backup process...\n"
    );
}

#[test]
fn log_stamps_the_present_time() {
    let logger = Logger::new("/tmp/giterdone.log".to_string());
    let line = logger.log("hello").unwrap();
    assert!(line.starts_with('['));
    assert!(line.ends_with("]: hello\n"));
    let stamp = &line[1..line.len() - "]: hello\n".len()];
    assert_eq!(stamp.len(), 19);
    assert!(stamp.starts_with("20"));
    assert_ne!(stamp, "%Y-%m-%d %H:%M:%S");
}

#[test]
fn commit_message_comes_from_the_template() {
    let args = commit_args_now(&config("Backup on %Y"), false).unwrap();
    assert_eq!(args.len(), 3);
    assert_eq!(args[0], "commit");
    assert_eq!(args[1], "-m");
    assert!(args[2].starts_with("Backup on 2"));
    assert_eq!(args[2].len(), "Backup on ".len() + 4);
    let args = commit_args_now(&config("fixed"), true).unwrap();
    assert_eq!(args, vec!["commit", "-m", "fixed", "--dry-run"]);
}

#[test]
fn unreadable_template_gives_no_commit() {
    assert_eq!(commit_args_now(&config("%"), false), None);
}

#[test]
fn locations_under_given_directories() {
    assert_eq!(
        repo_path_in("/home/u/.config", "https://github.com/user/repo.git"),
        "/home/u/.config/giterdone/repo"
    );
    assert_eq!(config_path_in("/home/u/.config"), "/home/u/.config/giterdone/config.json");
    assert_eq!(log_path_in("/home/u/.config"), "/home/u/.config/giterdone/logs/giterdone.log");
    assert_eq!(key_path_in("/home/u"), "/home/u/.ssh/id_rsa");
    assert_eq!(known_hosts_path_in("/home/u"), "/home/u/.ssh/known_hosts");
    assert_eq!(key_path_in("/"), "/.ssh/id_rsa");
}

#[test]
fn locations_of_this_machine() {
    if let Some(p) = get_repo_path("https://github.com/user/repo.git") {
        assert!(p.ends_with("giterdone/repo"));
    }
    if let Some(p) = config_path() {
        assert!(p.ends_with("giterdone/config.json"));
    }
    if let Some(p) = log_path() {
        assert!(p.ends_with("giterdone/logs/giterdone.log"));
    }
    if let Some(p) = get_ssh_key_path() {
        assert!(p.ends_with(".ssh/id_rsa"));
    }
    if let Some(p) = known_hosts_path() {
        assert!(p.ends_with(".ssh/known_hosts"));
    }
}

#[test]
fn key_is_named_for_clone_and_pushes() {
    assert!(uses_key(GitOp::Clone));
    assert!(uses_key(GitOp::PushPrimary));
    assert!(uses_key(GitOp::PushSecondary));
    assert!(uses_key(GitOp::ForcePushSecondary));
    assert!(!uses_key(GitOp::Fetch));
    assert!(!uses_key(GitOp::PushUpstream));
    assert!(!uses_key(GitOp::Commit));
    assert_eq!(ssh_command("/home/u/.ssh/id_rsa"), "ssh -i /home/u/.ssh/id_rsa");
}

#[test]
fn command_line_record() {
    let cli = Cli { command: Some(Commands::DryRun), verbose: true };
    assert_eq!(cli.command, Some(Commands::DryRun));
    assert_ne!(Commands::Init, Commands::Status);
    assert_eq!(Cli { command: None, verbose: false }, Cli { command: None, verbose: false });
}

const NOON: Moment = Moment { secs: 1704164645, nanos: 0, offset: 0 };

#[test]
fn commit_message_at_a_given_moment() {
    assert_eq!(
        commit_args_at(&config("Backup on %Y-%m-%d %H:%M:%S"), NOON, false),
        Some(vec![
            "commit".to_string(),
            "-m".to_string(),
            "Backup on 2024-01-02 03:04:05".to_string()
        ])
    );
    let east = Moment { secs: 0, nanos: 0, offset: 3600 };
    assert_eq!(
        commit_args_at(&config("%H:%M %z"), east, true),
        Some(vec![
            "commit".to_string(),
            "-m".to_string(),
            "01:00 +0100".to_string(),
            "--dry-run".to_string()
        ])
    );
}

#[test]
fn commit_message_needs_a_template_and_a_moment_that_can_be_written() {
    assert_eq!(commit_args_at(&config("%"), NOON, false), None);
    let far = Moment { secs: 0, nanos: 0, offset: 90000 };
    assert_eq!(commit_args_at(&config("%Y"), far, false), None);
    let late = Moment { secs: i64::MAX, nanos: 0, offset: 0 };
    assert_eq!(commit_args_at(&config("%Y"), late, false), None);
}

#[test]
fn log_line_at_a_given_moment() {
    let logger = Logger::new("/tmp/giterdone.log".to_string());
    assert_eq!(
        logger.log_at(NOON, "Backup successful."),
        Some("[2024-01-02 03:04:05]: Backup successful.\n".to_string())
    );
    let west = Moment { secs: 1704164645, nanos: 999_999_999, offset: -18000 };
    assert_eq!(logger.log_at(west, "x"), Some("[2024-01-01 22:04:05]: x\n".to_string()));
    let far = Moment { secs: 0, nanos: 0, offset: -90000 };
    assert_eq!(logger.log_at(far, "x"), None);
}
