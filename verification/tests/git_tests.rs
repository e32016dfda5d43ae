use filekeeper::cli::GitMode;
use filekeeper::git::{command_report, git_commands, join_output, needs_confirmation, restore_declined, restore_prompt};

fn words(v: Vec<Vec<String>>) -> Vec<Vec<&'static str>> {
    v.into_iter()
        .map(|c| c.into_iter().map(|s| &*Box::leak(s.into_boxed_str())).collect())
        .collect()
}

#[test]
fn commands_per_mode() {
    assert_eq!(words(git_commands(&GitMode::Status)), vec![vec!["status"]]);
    assert_eq!(words(git_commands(&GitMode::Pull)), vec![vec!["pull"]]);
    assert_eq!(words(git_commands(&GitMode::Restore)), vec![vec!["restore", "."]]);
    assert_eq!(
        words(git_commands(&GitMode::Push("save work".to_string()))),
        vec![vec!["add", "."], vec!["commit", "-m", "save work"], vec!["push"]]
    );
}

#[test]
fn confirmation_only_for_restore() {
    assert!(needs_confirmation(&GitMode::Restore));
    assert!(!needs_confirmation(&GitMode::Pull));
    assert!(!needs_confirmation(&GitMode::Status));
    assert!(!needs_confirmation(&GitMode::Push("m".to_string())));
}

#[test]
fn prompts_and_reports() {
    assert_eq!(
        restore_prompt("/repo"),
        "Are you sure you want to restore the changes made to the repository at [/repo]"
    );
    assert_eq!(restore_declined(), "Aborting restore!");
    assert_eq!(join_output(&"out".to_string(), &"err".to_string()), "out\nerr");
    assert_eq!(command_report(b"ok".to_vec(), "é".as_bytes().to_vec()), Some("ok\né".to_string()));
    assert_eq!(command_report(vec![0xff], vec![]), None);
    assert_eq!(command_report(vec![], vec![0xc3]), None);
}
