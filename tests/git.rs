use git_utils::cli::{
    alias_config_command, alias_config_name, branch_refspec, check_tracking, config_scope_flag,
    is_head, split_remote_branch, switchable_branches,
};
use git_utils::{ArgCommand, GitContext, GitOutput, MainArgs, SwitchError};

fn output(code: Option<i32>, stdout: &str, stderr: &str) -> GitOutput {
    GitOutput { code, stdout: stdout.to_string(), stderr: stderr.to_string() }
}

#[test]
fn context_keeps_the_working_dir() {
    let args = MainArgs {
        log: false,
        working_dir: Some("/tmp/repo".to_string()),
        subcommand: ArgCommand::Switch { remote: false },
    };
    assert_eq!(GitContext::new(&args).working_dir(), Some("/tmp/repo"));
    let args = MainArgs { log: true, working_dir: None, subcommand: ArgCommand::Switch { remote: true } };
    assert_eq!(GitContext::new(&args).working_dir(), None);
}

#[test]
fn query_output() {
    assert!(output(Some(0), "x", "").success());
    assert!(!output(None, "x", "").success());
    assert_eq!(output(Some(0), "main", "").into_stdout().unwrap(), "main");
    assert_eq!(output(Some(128), "", "fatal: bad").into_stdout().unwrap_err().stderr, "fatal: bad");
    assert_eq!(output(None, "", "killed").into_stdout().unwrap_err().stderr, "killed");
}

#[test]
fn answer_output() {
    assert_eq!(output(Some(0), "origin/main", "").into_answer().unwrap(), Some("origin/main".to_string()));
    assert_eq!(output(Some(1), "", "").into_answer().unwrap(), None);
    assert_eq!(output(Some(2), "", "usage").into_answer().unwrap_err().stderr, "usage");
}

#[test]
fn scope_and_refspec() {
    assert_eq!(config_scope_flag(true, false), "--system");
    assert_eq!(config_scope_flag(true, true), "--system");
    assert_eq!(config_scope_flag(false, true), "--local");
    assert_eq!(config_scope_flag(false, false), "--global");
    assert_eq!(branch_refspec(false), "refs/heads");
    assert_eq!(branch_refspec(true), "refs/remotes");
}

#[test]
fn head_refs_are_dropped() {
    assert!(is_head("origin/HEAD"));
    assert!(!is_head("HEAD"));
    assert!(!is_head("origin/HEADS"));
    let list = vec!["origin/HEAD".to_string(), "origin/main".to_string(), "up/dev".to_string()];
    assert_eq!(switchable_branches(list).unwrap(), vec!["origin/main".to_string(), "up/dev".to_string()]);
    assert!(matches!(switchable_branches(vec!["origin/HEAD".to_string()]), Err(SwitchError::NoBranches)));
    assert!(matches!(switchable_branches(Vec::new()), Err(SwitchError::NoBranches)));
}

#[test]
fn remote_branch_is_split_at_the_first_slash() {
    assert_eq!(
        split_remote_branch("origin/feature/x").unwrap(),
        ("origin".to_string(), "feature/x".to_string())
    );
    assert!(matches!(split_remote_branch("main"), Err(SwitchError::UnexpectedFormat)));
}

#[test]
fn tracking_must_match() {
    assert!(check_tracking("main", "origin/main", Some("origin/main".to_string())).is_ok());
    match check_tracking("main", "origin/main", Some("up/main".to_string())) {
        Err(SwitchError::DifferentUpstream { local, upstream, expected }) => {
            assert_eq!((local.as_str(), upstream.as_str(), expected.as_str()), ("main", "up/main", "origin/main"));
        }
        _ => panic!("expected a different upstream"),
    }
    assert!(matches!(
        check_tracking("main", "origin/main", None),
        Err(SwitchError::NotTracking { .. })
    ));
}

#[test]
fn alias_strings() {
    assert_eq!(alias_config_name("iswitch"), "alias.iswitch");
    assert_eq!(alias_config_command("/usr/bin/git-utils", "switch"), "!/usr/bin/git-utils switch");
}
