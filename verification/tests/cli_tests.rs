use filekeeper::cli::{
    confirm_prompt, confirm_reply, editor_config_file, help_text, needs_config, parse_args,
    parse_args_accepts, pick_editor, reply_for, status_report, unknown_mode_message, update_endpoints, update_prompt,
    CliMode, ConfirmDefault, GitMode,
};
use filekeeper::text::{indentation, padded, without_whitespace};

fn args(words: &[&str]) -> Vec<String> {
    std::iter::once("fkp").chain(words.iter().copied()).map(|s| s.to_string()).collect()
}

fn mode(words: &[&str]) -> (CliMode, Option<String>) {
    parse_args(&args(words))
}

#[test]
fn parse_simple_modes() {
    assert!(matches!(mode(&["help"]), (CliMode::Help, None)));
    assert!(matches!(mode(&["-h"]), (CliMode::Help, None)));
    assert!(matches!(mode(&["check"]), (CliMode::Check, None)));
    assert!(matches!(mode(&["changes"]), (CliMode::Check, None)));
    assert!(matches!(mode(&["-c"]), (CliMode::Check, None)));
    assert!(matches!(mode(&["status"]), (CliMode::Status, None)));
    assert!(matches!(mode(&["-s"]), (CliMode::Status, None)));
    assert!(matches!(mode(&["edit"]), (CliMode::Edit, None)));
    assert!(matches!(mode(&["config"]), (CliMode::Edit, None)));
    assert!(matches!(mode(&["-e"]), (CliMode::Edit, None)));
    assert!(matches!(mode(&["bogus"]), (CliMode::Unknow, None)));
}

#[test]
fn parse_missing_arguments_warn() {
    let (m, w) = mode(&[]);
    assert!(matches!(m, CliMode::Help));
    assert_eq!(w.unwrap(), "No arguments provided");
    let (m, w) = mode(&["update"]);
    assert!(matches!(m, CliMode::Help));
    assert_eq!(w.unwrap(), "Update requires an additional argument");
    let (m, w) = mode(&["-g"]);
    assert!(matches!(m, CliMode::Help));
    assert_eq!(w.unwrap(), "No git command was provided");
    let (m, w) = mode(&["git", "push"]);
    assert!(matches!(m, CliMode::Help));
    assert_eq!(w.unwrap(), "No commit message was provided");
    let (m, w) = mode(&["switch"]);
    assert!(matches!(m, CliMode::Help));
    assert_eq!(w.unwrap(), "No group name was provided");
}

#[test]
fn parse_update_targets() {
    assert!(matches!(mode(&["update", "machine"]), (CliMode::UpdateMachine, None)));
    assert!(matches!(mode(&["sync", "home"]), (CliMode::UpdateMachine, None)));
    assert!(matches!(mode(&["-S", "."]), (CliMode::UpdateMachine, None)));
    assert!(matches!(mode(&["update", "entries"]), (CliMode::UpdateEntries, None)));
    assert!(matches!(mode(&["update", "repo"]), (CliMode::UpdateEntries, None)));
    assert!(matches!(mode(&["sync", "keep"]), (CliMode::UpdateEntries, None)));
    assert!(matches!(mode(&["update", "other"]), (CliMode::Unknow, None)));
}

#[test]
fn parse_git_and_switch() {
    assert!(matches!(mode(&["git", "pull"]), (CliMode::Git(GitMode::Pull), None)));
    assert!(matches!(mode(&["-g", "restore"]), (CliMode::Git(GitMode::Restore), None)));
    assert!(matches!(mode(&["git", "status"]), (CliMode::Git(GitMode::Status), None)));
    assert!(matches!(mode(&["git", "fetch"]), (CliMode::Unknow, None)));
    match mode(&["git", "push", "a message"]) {
        (CliMode::Git(GitMode::Push(m)), None) => assert_eq!(m, "a message"),
        other => panic!("unexpected {:?}", other),
    }
    match mode(&["switch", "laptop"]) {
        (CliMode::Switch(n), None) => assert_eq!(n, "laptop"),
        other => panic!("unexpected {:?}", other),
    }
}

#[test]
fn parse_acceptance() {
    assert!(!parse_args_accepts(&vec![]));
    assert!(parse_args_accepts(&args(&["git", "push"])));
    assert!(parse_args_accepts(&args(&["git", "push", "m"])));
    assert!(parse_args_accepts(&args(&["git"])));
    assert!(parse_args_accepts(&args(&[])));
}

#[test]
fn help_lists_options() {
    let h = help_text();
    assert!(h.starts_with("\nUsage:     fkp [OPTIONS]\n\nOptions:\n"));
    assert!(h.contains("\n  help, -h                       show this menu\n"));
    assert!(h.contains("\n  update, sync, -S <WHICH>       update entries\n"));
    assert!(h.contains(
        "\n                                   - possible commands are: [\"status\", \"pull\", \"push\", \"restore\"]\n"
    ));
    assert_eq!(h.lines().count(), 14);
}

#[test]
fn modes_needing_config() {
    assert!(!needs_config(&CliMode::Help));
    assert!(!needs_config(&CliMode::Unknow));
    assert!(!needs_config(&CliMode::Edit));
    assert!(!needs_config(&CliMode::Switch("x".to_string())));
    assert!(needs_config(&CliMode::Status));
    assert!(needs_config(&CliMode::Check));
    assert!(needs_config(&CliMode::Git(GitMode::Pull)));
    assert!(needs_config(&CliMode::UpdateMachine));
    assert!(needs_config(&CliMode::UpdateEntries));
    assert_eq!(unknown_mode_message(), "Unknow CLI mode");
}

#[test]
fn update_prompts() {
    assert_eq!(update_prompt(&CliMode::UpdateMachine), Some("Update local files?"));
    assert_eq!(update_prompt(&CliMode::UpdateEntries), Some("Update files in the keep?"));
    assert_eq!(update_prompt(&CliMode::Check), None);
}

#[test]
fn update_directions() {
    assert_eq!(update_endpoints(&CliMode::UpdateMachine, "entry", "kept"), Some(("kept", "entry")));
    assert_eq!(update_endpoints(&CliMode::UpdateEntries, "entry", "kept"), Some(("entry", "kept")));
    assert_eq!(update_endpoints(&CliMode::Status, "entry", "kept"), None);
}

#[test]
fn status_lists_repositories_then_entries() {
    let groups = vec![
        ("/repo".to_string(), vec!["/a".to_string(), "/b c".to_string()]),
        ("/other".to_string(), vec![]),
    ];
    assert_eq!(
        status_report(&groups),
        "Base repositories are: \n- [\"/repo\"]\n- [\"/other\"]\n\nThe entries to check are: \n- [\"/a\"]\n- [\"/b c\"]\n"
    );
    assert_eq!(status_report(&vec![]), "Base repositories are: \n\nThe entries to check are: \n");
}

#[test]
fn confirmations() {
    assert_eq!(confirm_prompt("Go?", ConfirmDefault::Yes), "Go?\n\n[Y/n]\n");
    assert_eq!(confirm_prompt("Go?", ConfirmDefault::No), "Go?\n\n[y/N]\n");
    assert_eq!(confirm_reply("yes\n", ConfirmDefault::No), Some(true));
    assert_eq!(confirm_reply(" Y \n", ConfirmDefault::No), Some(true));
    assert_eq!(confirm_reply("NO\n", ConfirmDefault::Yes), Some(false));
    assert_eq!(confirm_reply("n", ConfirmDefault::Yes), Some(false));
    assert_eq!(confirm_reply("\n", ConfirmDefault::Yes), Some(true));
    assert_eq!(confirm_reply("  \t\n", ConfirmDefault::No), Some(false));
    assert_eq!(confirm_reply("", ConfirmDefault::No), Some(false));
    assert_eq!(confirm_reply("maybe\n", ConfirmDefault::Yes), None);
    assert_eq!(confirm_reply("y e s\n", ConfirmDefault::No), Some(true));
    assert_eq!(confirm_reply("\u{3000}no\u{2003}\n", ConfirmDefault::Yes), Some(false));
    assert_eq!(confirm_reply("\u{200b}", ConfirmDefault::Yes), None);
    assert_eq!(reply_for(&"yes".to_string(), ConfirmDefault::No), Some(true));
    assert_eq!(reply_for(&"YES".to_string(), ConfirmDefault::No), None);
    assert_eq!(reply_for(&"\n".to_string(), ConfirmDefault::No), Some(false));
}

#[test]
fn editor_choices() {
    assert_eq!(editor_config_file("/home/u/.config/fk"), "/home/u/.config/fk/config.toml");
    assert_eq!(editor_config_file("/home/\"u\"/cfg"), "/home/u/cfg/config.toml");
    assert_eq!(pick_editor(Some("nano".to_string())), "nano");
    assert_eq!(pick_editor(None), "vim");
}

#[test]
fn text_helpers() {
    assert_eq!(without_whitespace(" a b\tc\n"), "abc");
    assert_eq!(indentation(3), "      ");
    assert_eq!(padded("ab", 5), "ab   ");
    assert_eq!(padded("abcdef", 3), "abcdef");
}

#[test]
fn whitespace_agrees_with_std() {
    for u in 0u32..0x4000 {
        if let Some(c) = char::from_u32(u) {
            assert_eq!(filekeeper::text::is_whitespace(c), c.is_whitespace(), "at {:x}", u);
        }
    }
    assert!(!filekeeper::text::is_whitespace('\u{feff}'));
}
