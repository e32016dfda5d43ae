//! The command line: how the arguments choose a mode, the usage text, the
//! questions put to the user, and what each mode needs.

use vstd::prelude::*;
use vstd::string::*;
use crate::text::{whitespace, debug_text, debug_quote, lowercase, to_lowercase, strip_whitespace, without_whitespace, pad_right, padded};

verus! {

/// What git is asked to do in the kept repositories.
#[derive(Clone, Debug)]
pub enum GitMode {
    Push(String),
    Pull,
    Restore,
    Status,
}

/// What the command line asks for.
#[derive(Clone, Debug)]
pub enum CliMode {
    Unknow,
    Help,
    Check,
    Status,
    Switch(String),
    Git(GitMode),
    Edit,
    /// Copy the entries of the machine into the repository.
    UpdateEntries,
    /// Copy the kept entries back onto the machine.
    UpdateMachine,
}

/// The answer that a question assumes where the user gives none.
#[derive(Clone, Copy, Debug, PartialEq, Eq, Structural)]
pub enum ConfirmDefault {
    Yes,
    No,
}

/// Whether `s` is exactly the word `w`.
fn is_word(s: &String, w: &str) -> (b: bool)
    ensures
        b == (s@ == w@),
{
    *s == String::from_str(w)
}

/// The arguments after the program's own name.
pub open spec fn rest_of(args: Seq<String>) -> Seq<String> {
    args.drop_first()
}

/// Reading the arguments fails (the program stops) where there is not even
/// the program's name.
pub open spec fn parse_fails(args: Seq<String>) -> bool {
    args.len() == 0
}

/// The mode that the arguments select, and the warning that is printed on
/// the way, if any. `args[0]` is the program's name.
pub open spec fn parse_spec(args: Seq<String>) -> (CliMode, Option<Seq<char>>) {
    let rest = rest_of(args);
    if rest.len() == 0 {
        (CliMode::Help, Some("No arguments provided"@))
    } else {
        let a = rest[0]@;
        if a == "help"@ || a == "-h"@ {
            (CliMode::Help, None)
        } else if a == "check"@ || a == "changes"@ || a == "-c"@ {
            (CliMode::Check, None)
        } else if a == "status"@ || a == "-s"@ {
            (CliMode::Status, None)
        } else if a == "update"@ || a == "sync"@ || a == "-S"@ {
            if rest.len() < 2 {
                (CliMode::Help, Some("Update requires an additional argument"@))
            } else {
                let b = rest[1]@;
                if b == "machine"@ || b == "home"@ || b == "."@ {
                    (CliMode::UpdateMachine, None)
                } else if b == "entries"@ || b == "repo"@ || b == "keep"@ {
                    (CliMode::UpdateEntries, None)
                } else {
                    (CliMode::Unknow, None)
                }
            }
        } else if a == "git"@ || a == "-g"@ {
            if rest.len() < 2 {
                (CliMode::Help, Some("No git command was provided"@))
            } else {
                let b = rest[1]@;
                if b == "pull"@ {
                    (CliMode::Git(GitMode::Pull), None)
                } else if b == "push"@ {
                    if rest.len() < 3 {
                        (CliMode::Help, Some("No commit message was provided"@))
                    } else {
                        (CliMode::Git(GitMode::Push(rest[2])), None)
                    }
                } else if b == "restore"@ {
                    (CliMode::Git(GitMode::Restore), None)
                } else if b == "status"@ {
                    (CliMode::Git(GitMode::Status), None)
                } else {
                    (CliMode::Unknow, None)
                }
            }
        } else if a == "switch"@ {
            if rest.len() < 2 {
                (CliMode::Help, Some("No group name was provided"@))
            } else {
                (CliMode::Switch(rest[1]), None)
            }
        } else if a == "edit"@ || a == "config"@ || a == "-e"@ {
            (CliMode::Edit, None)
        } else {
            (CliMode::Unknow, None)
        }
    }
}

/// The view of an optional string.
pub open spec fn opt_view(s: Option<String>) -> Option<Seq<char>> {
    match s {
        Some(t) => Some(t@),
        None => None,
    }
}

/// Whether `parse_args` can read these arguments (see `parse_fails`).
pub fn parse_args_accepts(args: &Vec<String>) -> (b: bool)
    ensures
        b == !parse_fails(args@),
{
    args.len() != 0
}

/// Reads the command line: `args` are the process's arguments, the
/// program's name first. Gives the mode and the warning to print, if any.
pub fn parse_args(args: &Vec<String>) -> (r: (CliMode, Option<String>))
    requires
        !parse_fails(args@),
    ensures
        r.0 == parse_spec(args@).0,
        opt_view(r.1) == parse_spec(args@).1,
{
    let n = args.len();
    let ghost rest = rest_of(args@);
    assert(forall|i: int| 0 <= i < rest.len() ==> #[trigger] rest[i] == args@[i + 1]);
    if n < 2 {
        return (CliMode::Help, Some(String::from_str("No arguments provided")));
    }
    let a = &args[1];
    if is_word(a, "help") || is_word(a, "-h") {
        (CliMode::Help, None)
    } else if is_word(a, "check") || is_word(a, "changes") || is_word(a, "-c") {
        (CliMode::Check, None)
    } else if is_word(a, "status") || is_word(a, "-s") {
        (CliMode::Status, None)
    } else if is_word(a, "update") || is_word(a, "sync") || is_word(a, "-S") {
        if n < 3 {
            return (CliMode::Help, Some(String::from_str("Update requires an additional argument")));
        }
        let b = &args[2];
        if is_word(b, "machine") || is_word(b, "home") || is_word(b, ".") {
            (CliMode::UpdateMachine, None)
        } else if is_word(b, "entries") || is_word(b, "repo") || is_word(b, "keep") {
            (CliMode::UpdateEntries, None)
        } else {
            (CliMode::Unknow, None)
        }
    } else if is_word(a, "git") || is_word(a, "-g") {
        if n < 3 {
            return (CliMode::Help, Some(String::from_str("No git command was provided")));
        }
        let b = &args[2];
        if is_word(b, "pull") {
            (CliMode::Git(GitMode::Pull), None)
        } else if is_word(b, "push") {
            if n < 4 {
                return (CliMode::Help, Some(String::from_str("No commit message was provided")));
            }
            (CliMode::Git(GitMode::Push(args[3].clone())), None)
        } else if is_word(b, "restore") {
            (CliMode::Git(GitMode::Restore), None)
        } else if is_word(b, "status") {
            (CliMode::Git(GitMode::Status), None)
        } else {
            (CliMode::Unknow, None)
        }
    } else if is_word(a, "switch") {
        if n < 3 {
            return (CliMode::Help, Some(String::from_str("No group name was provided")));
        }
        (CliMode::Switch(args[2].clone()), None)
    } else if is_word(a, "edit") || is_word(a, "config") || is_word(a, "-e") {
        (CliMode::Edit, None)
    } else {
        (CliMode::Unknow, None)
    }
}


/// The options that the usage text lists, each with what it does.
pub open spec fn help_rows() -> Seq<(Seq<char>, Seq<char>)> {
    seq![
        ("help, -h"@, "show this menu"@),
        ("status, -s"@, "display current selected repositories and entries"@),
        ("check, changes, -c"@, "check for modifications between the local and keep entries"@),
        ("update, sync, -S <WHICH>"@, "update entries"@),
        (""@, "  - possible values for updating LOCAL entries are: [\"machine\", \"home\", \".\"]"@),
        (""@, "  - possible values for updating KEEP entries are: [\"repo\", \"keep\"]"@),
        ("switch <NAME>"@, "switch current group to <NAME>"@),
        ("edit"@, "open the configuration file with the editor defined by $EDITOR"@),
        ("git, -g <COMMAND>"@, "run a git command at the selected repositories"@),
        (""@, "  - possible commands are: [\"status\", \"pull\", \"push\", \"restore\"]"@),
    ]
}

/// The lines of the option table: two spaces, the option padded to 30
/// characters, a space and the description.
pub open spec fn rows_text(rows: Seq<(Seq<char>, Seq<char>)>) -> Seq<char>
    decreases rows.len(),
{
    if rows.len() == 0 {
        Seq::empty()
    } else {
        rows_text(rows.drop_last()) + "  "@ + pad_right(rows.last().0, 30) + " "@ + rows.last().1 + "\n"@
    }
}

/// The usage text.
pub open spec fn help_spec() -> Seq<char> {
    "\n"@ + pad_right("Usage: "@, 10) + " fkp [OPTIONS]\n"@ + "\nOptions:\n"@ + rows_text(help_rows())
}

/// The usage text that `help` prints.
pub fn help_text() -> (r: String)
    ensures
        r@ == help_spec(),
{
    let options: Vec<(&str, &str)> = vec![
        ("help, -h", "show this menu"),
        ("status, -s", "display current selected repositories and entries"),
        ("check, changes, -c", "check for modifications between the local and keep entries"),
        ("update, sync, -S <WHICH>", "update entries"),
        ("", "  - possible values for updating LOCAL entries are: [\"machine\", \"home\", \".\"]"),
        ("", "  - possible values for updating KEEP entries are: [\"repo\", \"keep\"]"),
        ("switch <NAME>", "switch current group to <NAME>"),
        ("edit", "open the configuration file with the editor defined by $EDITOR"),
        ("git, -g <COMMAND>", "run a git command at the selected repositories"),
        ("", "  - possible commands are: [\"status\", \"pull\", \"push\", \"restore\"]"),
    ];
    let ghost rows = options@.map_values(|p: (&str, &str)| (p.0@, p.1@));
    assert(rows =~= help_rows());
    let mut out = String::from_str("\n");
    let usage = padded("Usage: ", 10);
    out.append(usage.as_str());
    out.append(" fkp [OPTIONS]\n");
    out.append("\nOptions:\n");
    let ghost head = out@;
    let mut i: usize = 0;
    while i < options.len()
        invariant
            i <= options@.len(),
            rows == options@.map_values(|p: (&str, &str)| (p.0@, p.1@)),
            out@ == head + rows_text(rows.take(i as int)),
        decreases options@.len() - i,
    {
        let (left, right) = options[i];
        out.append("  ");
        let cell = padded(left, 30);
        out.append(cell.as_str());
        out.append(" ");
        out.append(right);
        out.append("\n");
        proof {
            assert(rows.take(i + 1).drop_last() == rows.take(i as int));
            assert(rows.take(i + 1).last() == rows[i as int]);
            assert(out@ =~= head + rows_text(rows.take(i + 1)));
        }
        i = i + 1;
    }
    assert(rows.take(options@.len() as int) == rows);
    out
}

/// Whether a mode needs a valid configuration: help, an unknown mode, a
/// switch of group and editing the configuration do not.
pub open spec fn mode_needs_config(mode: CliMode) -> bool {
    match mode {
        CliMode::Help | CliMode::Unknow | CliMode::Switch(_) | CliMode::Edit => false,
        _ => true,
    }
}

/// Whether a mode needs a valid configuration.
pub fn needs_config(mode: &CliMode) -> (b: bool)
    ensures
        b == mode_needs_config(*mode),
{
    match mode {
        CliMode::Help | CliMode::Unknow | CliMode::Switch(_) | CliMode::Edit => false,
        _ => true,
    }
}

/// The source and the destination of the copies that an update makes, given
/// an entry of the machine and its kept copy: updating the machine copies
/// the kept copy over the entry, updating the entries copies the entry over
/// the kept copy. Other modes copy nothing.
pub fn update_endpoints<P>(mode: &CliMode, entry: P, kept: P) -> (r: Option<(P, P)>)
    ensures
        match *mode {
            CliMode::UpdateMachine => r == Some((kept, entry)),
            CliMode::UpdateEntries => r == Some((entry, kept)),
            _ => r is None,
        },
{
    match mode {
        CliMode::UpdateMachine => Some((kept, entry)),
        CliMode::UpdateEntries => Some((entry, kept)),
        _ => None,
    }
}

/// The message for a mode that the arguments do not name.
pub fn unknown_mode_message() -> (r: &'static str)
    ensures
        r@ == "Unknow CLI mode"@,
{
    "Unknow CLI mode"
}

/// The question that an update asks before it copies anything, if the mode
/// is an update.
pub fn update_prompt(mode: &CliMode) -> (r: Option<&'static str>)
    ensures
        match *mode {
            CliMode::UpdateMachine => r matches Some(p) && p@ == "Update local files?"@,
            CliMode::UpdateEntries => r matches Some(p) && p@ == "Update files in the keep?"@,
            _ => r is None,
        },
{
    match mode {
        CliMode::UpdateMachine => Some("Update local files?"),
        CliMode::UpdateEntries => Some("Update files in the keep?"),
        _ => None,
    }
}

/// A list line: `- [` the quoted text `]`.
pub open spec fn item_line(s: Seq<char>) -> Seq<char> {
    "- ["@ + debug_text(s) + "]\n"@
}

/// One list line per repository.
pub open spec fn repositories_text(groups: Seq<(String, Vec<String>)>) -> Seq<char>
    decreases groups.len(),
{
    if groups.len() == 0 {
        Seq::empty()
    } else {
        repositories_text(groups.drop_last()) + item_line(groups.last().0@)
    }
}

/// One list line per string.
pub open spec fn items_text(items: Seq<String>) -> Seq<char>
    decreases items.len(),
{
    if items.len() == 0 {
        Seq::empty()
    } else {
        items_text(items.drop_last()) + item_line(items.last()@)
    }
}

/// One list line per entry, group after group.
pub open spec fn entries_text(groups: Seq<(String, Vec<String>)>) -> Seq<char>
    decreases groups.len(),
{
    if groups.len() == 0 {
        Seq::empty()
    } else {
        entries_text(groups.drop_last()) + items_text(groups.last().1@)
    }
}

/// What the status mode prints for the groups (repository, entries).
pub open spec fn status_spec(groups: Seq<(String, Vec<String>)>) -> Seq<char> {
    "Base repositories are: \n"@ + repositories_text(groups) + "\nThe entries to check are: \n"@
        + entries_text(groups)
}

/// Appends a list line for `s` to `out`.
fn push_item(out: &mut String, s: &String)
    ensures
        final(out)@ == old(out)@ + item_line(s@),
{
    out.append("- [");
    let quoted = debug_quote(s.as_str());
    out.append(quoted.as_str());
    out.append("]\n");
}

/// The status report: the repositories, then every entry.
pub fn status_report(groups: &Vec<(String, Vec<String>)>) -> (r: String)
    ensures
        r@ == status_spec(groups@),
{
    let mut out = String::from_str("Base repositories are: \n");
    let ghost head = out@;
    let mut i: usize = 0;
    while i < groups.len()
        invariant
            i <= groups@.len(),
            out@ == head + repositories_text(groups@.take(i as int)),
        decreases groups@.len() - i,
    {
        push_item(&mut out, &groups[i].0);
        proof {
            assert(groups@.take(i + 1).drop_last() == groups@.take(i as int));
            assert(groups@.take(i + 1).last() == groups@[i as int]);
            assert(out@ =~= head + repositories_text(groups@.take(i + 1)));
        }
        i = i + 1;
    }
    assert(groups@.take(groups@.len() as int) == groups@);
    out.append("\nThe entries to check are: \n");
    let ghost mid = out@;
    let mut i: usize = 0;
    while i < groups.len()
        invariant
            i <= groups@.len(),
            out@ == mid + entries_text(groups@.take(i as int)),
        decreases groups@.len() - i,
    {
        let entries = &groups[i].1;
        let ghost before = out@;
        let mut j: usize = 0;
        while j < entries.len()
            invariant
                j <= entries@.len(),
                out@ == before + items_text(entries@.take(j as int)),
            decreases entries@.len() - j,
        {
            push_item(&mut out, &entries[j]);
            proof {
                assert(entries@.take(j + 1).drop_last() == entries@.take(j as int));
                assert(entries@.take(j + 1).last() == entries@[j as int]);
                assert(out@ =~= before + items_text(entries@.take(j + 1)));
            }
            j = j + 1;
        }
        proof {
            assert(entries@.take(entries@.len() as int) == entries@);
            assert(groups@.take(i + 1).drop_last() == groups@.take(i as int));
            assert(groups@.take(i + 1).last() == groups@[i as int]);
            assert(out@ =~= mid + entries_text(groups@.take(i + 1)));
        }
        i = i + 1;
    }
    assert(groups@.take(groups@.len() as int) == groups@);
    out
}

/// The hint that shows the default answer of a question.
pub open spec fn confirm_box_text(default: ConfirmDefault) -> Seq<char> {
    match default {
        ConfirmDefault::Yes => "[Y/n]"@,
        ConfirmDefault::No => "[y/N]"@,
    }
}

/// What asking `prompt` prints: the question, an empty line, and the hint
/// of the default answer.
pub fn confirm_prompt(prompt: &str, default: ConfirmDefault) -> (r: String)
    ensures
        r@ == prompt@ + "\n\n"@ + confirm_box_text(default) + "\n"@,
{
    let mut out = String::from_str(prompt);
    out.append("\n\n");
    match default {
        ConfirmDefault::Yes => out.append("[Y/n]"),
        ConfirmDefault::No => out.append("[y/N]"),
    }
    out.append("\n");
    out
}

/// What a reply means once its white space is gone and it is in lower
/// case: yes, no, the default for an empty reply, or nothing (ask again).
pub open spec fn reply_meaning(normalized: Seq<char>, default: ConfirmDefault) -> Option<bool> {
    if normalized == "yes"@ || normalized == "y"@ {
        Some(true)
    } else if normalized == "no"@ || normalized == "n"@ {
        Some(false)
    } else if normalized == "\n"@ || normalized == ""@ {
        Some(default == ConfirmDefault::Yes)
    } else {
        None
    }
}

/// What a normalized reply means.
pub fn reply_for(normalized: &String, default: ConfirmDefault) -> (r: Option<bool>)
    ensures
        r == reply_meaning(normalized@, default),
{
    if is_word(normalized, "yes") || is_word(normalized, "y") {
        Some(true)
    } else if is_word(normalized, "no") || is_word(normalized, "n") {
        Some(false)
    } else if is_word(normalized, "\n") || is_word(normalized, "") {
        Some(match default {
            ConfirmDefault::Yes => true,
            ConfirmDefault::No => false,
        })
    } else {
        None
    }
}

/// What a line typed in reply to a question means: its white space is
/// dropped and the rest put in lower case first.
pub fn confirm_reply(line: &str, default: ConfirmDefault) -> (r: Option<bool>)
    ensures
        r == reply_meaning(lowercase(strip_whitespace(line@)), default),
        (forall|i: int| 0 <= i < line@.len() ==> #[trigger] whitespace(line@[i])) ==> r == Some(default == ConfirmDefault::Yes),
{
    proof {
        if forall|i: int| 0 <= i < line@.len() ==> #[trigger] whitespace(line@[i]) {
            assert(line@.all(|c: char| !!whitespace(c)));
            line@.lemma_all_neg_filter_empty(|c: char| !whitespace(c));
            assert(strip_whitespace(line@).len() == 0);
        }
    }
    let stripped = without_whitespace(line);
    let normalized = to_lowercase(stripped.as_str());
    proof {
        if normalized@.len() == 0 {
            reveal_strlit("yes");
            reveal_strlit("y");
            reveal_strlit("no");
            reveal_strlit("n");
            reveal_strlit("\n");
            reveal_strlit("");
            assert(normalized@ == ""@);
        }
    }
    reply_for(&normalized, default)
}

/// The file that the editor opens: the configuration file in `config_dir`,
/// with every double quote dropped from the path.
pub open spec fn editor_target(config_dir: Seq<char>) -> Seq<char> {
    (config_dir + "/config.toml"@).filter(|c: char| c != '"')
}

/// The path of the configuration file, as given to the editor.
pub fn editor_config_file(config_dir: &str) -> (r: String)
    ensures
        r@ == editor_target(config_dir@),
{
    let mut full = String::from_str(config_dir);
    full.append("/config.toml");
    let s = full.as_str();
    let n = s.unicode_len();
    let mut out = String::new();
    let mut i: usize = 0;
    while i < n
        invariant
            n == s@.len(),
            s@ == config_dir@ + "/config.toml"@,
            i <= n,
            out@ == s@.take(i as int).filter(|c: char| c != '"'),
        decreases n - i,
    {
        let c = s.get_char(i);
        proof {
            reveal_with_fuel(Seq::filter, 1);
            assert(s@.take(i + 1).drop_last() == s@.take(i as int));
        }
        if c != '"' {
            out.append(s.substring_char(i, i + 1));
            proof {
                assert(s@.subrange(i as int, i + 1) == seq![c]);
            }
        }
        i = i + 1;
    }
    assert(s@.take(n as int) == s@);
    out
}

/// The editor to run: the value of `EDITOR` where it is set, else `vim`.
pub fn pick_editor(var: Option<String>) -> (r: String)
    ensures
        match var {
            Some(v) => r == v,
            None => r@ == "vim"@,
        },
{
    match var {
        Some(v) => v,
        None => String::from_str("vim"),
    }
}


/// A warning is printed only where the usage text is shown instead of
/// running anything.
pub proof fn law_warning_means_help(args: Seq<String>)
    ensures
        parse_spec(args).1 is Some ==> parse_spec(args).0 is Help,
{
}

/// The path handed to the editor holds no double quote.
pub proof fn law_editor_target_unquoted(config_dir: Seq<char>)
    ensures
        forall|i: int| 0 <= i < editor_target(config_dir).len() ==> editor_target(config_dir)[i] != '"',
{
    broadcast use vstd::seq_lib::group_filter_ensures;
    assert forall|i: int| 0 <= i < editor_target(config_dir).len() implies editor_target(config_dir)[i] != '"' by {
        (config_dir + "/config.toml"@).lemma_filter_pred(|c: char| c != '"', i);
    }
}


/// The lengths and first letters of the words that the command line and the
/// questions compare with.
proof fn lemma_words()
    ensures
        "yes"@.len() == 3,
        "y"@.len() == 1,
        "no"@.len() == 2,
        "n"@.len() == 1,
        "\n"@.len() == 1,
        ""@.len() == 0,
        "update"@.len() == 6,
        "sync"@.len() == 4,
        "-S"@.len() == 2,
        "help"@.len() == 4,
        "-h"@.len() == 2,
        "check"@.len() == 5,
        "changes"@.len() == 7,
        "-c"@.len() == 2,
        "status"@.len() == 6,
        "-s"@.len() == 2,
        "machine"@.len() == 7,
        "home"@.len() == 4,
        "."@.len() == 1,
        "entries"@.len() == 7,
        "repo"@.len() == 4,
        "keep"@.len() == 4,
        "update"@[0] == 'u',
        "status"@[0] == 's',
        "repo"@[0] == 'r',
        "keep"@[0] == 'k',
        "home"@[0] == 'h',
        "n"@[0] == 'n',
        "y"@[0] == 'y',
        "sync"@[0] == 's',
        "help"@[0] == 'h',
        "-S"@[1] == 'S',
        "-h"@[1] == 'h',
        "-c"@[1] == 'c',
        "-s"@[1] == 's',
        "entries"@[0] == 'e',
        "machine"@[0] == 'm',
{
    reveal_strlit("yes");
    reveal_strlit("y");
    reveal_strlit("no");
    reveal_strlit("n");
    reveal_strlit("\n");
    reveal_strlit("");
    reveal_strlit("update");
    reveal_strlit("sync");
    reveal_strlit("-S");
    reveal_strlit("help");
    reveal_strlit("-h");
    reveal_strlit("check");
    reveal_strlit("changes");
    reveal_strlit("-c");
    reveal_strlit("status");
    reveal_strlit("-s");
    reveal_strlit("machine");
    reveal_strlit("home");
    reveal_strlit(".");
    reveal_strlit("entries");
    reveal_strlit("repo");
    reveal_strlit("keep");
    assert("yes"@.len() == 3);
    assert("y"@.len() == 1);
    assert("no"@.len() == 2);
    assert("n"@.len() == 1);
    assert("\n"@.len() == 1);
    assert(""@.len() == 0);
    assert("update"@.len() == 6);
    assert("sync"@.len() == 4);
    assert("-S"@.len() == 2);
    assert("help"@.len() == 4);
    assert("-h"@.len() == 2);
    assert("check"@.len() == 5);
    assert("changes"@.len() == 7);
    assert("-c"@.len() == 2);
    assert("status"@.len() == 6);
    assert("-s"@.len() == 2);
    assert("machine"@.len() == 7);
    assert("home"@.len() == 4);
    assert("."@.len() == 1);
    assert("entries"@.len() == 7);
    assert("repo"@.len() == 4);
    assert("keep"@.len() == 4);
    assert("update"@[0] == 'u');
    assert("status"@[0] == 's');
    assert("repo"@[0] == 'r');
    assert("keep"@[0] == 'k');
    assert("home"@[0] == 'h');
    assert("n"@[0] == 'n');
    assert("y"@[0] == 'y');
    assert("sync"@[0] == 's');
    assert("help"@[0] == 'h');
    assert("-S"@[1] == 'S');
    assert("-h"@[1] == 'h');
    assert("-c"@[1] == 'c');
    assert("-s"@[1] == 's');
    assert("entries"@[0] == 'e');
    assert("machine"@[0] == 'm');
}

/// An explicit answer decides whatever the default: a reply that normalizes
/// to "no" or "n" means no, and one that normalizes to "yes" or "y" means
/// yes, under either default. Only an empty reply (or a bare line break)
/// depends on the default, and it takes the default.
pub proof fn law_explicit_reply_decides(s: Seq<char>, d: ConfirmDefault, e: ConfirmDefault)
    ensures
        (s == "no"@ || s == "n"@) ==> reply_meaning(s, d) == Some(false),
        (s == "yes"@ || s == "y"@) ==> reply_meaning(s, d) == Some(true),
        reply_meaning(s, d) != reply_meaning(s, e) ==> (s.len() == 0 || s == "\n"@),
        s.len() == 0 ==> reply_meaning(s, d) == Some(d == ConfirmDefault::Yes),
{
    lemma_words();
    if s.len() == 0 {
        assert(s =~= ""@);
    }
    if s == "n"@ {
        assert(s[0] != "y"@[0]);
    }
    if s == "y"@ {
        assert(s[0] != "n"@[0]);
    }
}

/// The word after `update`, `sync` or `-S` alone decides the direction:
/// `machine`, `home` and `.` update the machine, `entries`, `repo` and
/// `keep` update the kept entries, whichever of the three aliases was used,
/// and no warning is printed.
pub proof fn law_update_target_decides(args: Seq<String>)
    requires
        rest_of(args).len() >= 2,
        rest_of(args)[0]@ == "update"@ || rest_of(args)[0]@ == "sync"@ || rest_of(args)[0]@ == "-S"@,
    ensures
        ({
            let b = rest_of(args)[1]@;
            &&& (b == "machine"@ || b == "home"@ || b == "."@) ==> parse_spec(args).0 is UpdateMachine
            &&& (b == "entries"@ || b == "repo"@ || b == "keep"@) ==> parse_spec(args).0 is UpdateEntries
            &&& parse_spec(args).1 is None
        }),
{
    lemma_words();
    let a = rest_of(args)[0]@;
    assert(a != "help"@ && a != "-h"@ && a != "check"@ && a != "changes"@ && a != "-c"@) by {
        if a == "sync"@ {
            assert(a[0] != "help"@[0]);
        }
        if a == "-S"@ {
            assert(a[1] != "-h"@[1]);
            assert(a[1] != "-c"@[1]);
        }
    }
    assert(a != "status"@ && a != "-s"@) by {
        if a == "update"@ {
            assert(a[0] != "status"@[0]);
        }
        if a == "-S"@ {
            assert(a[1] != "-s"@[1]);
        }
    }
    let b = rest_of(args)[1]@;
    if b == "entries"@ || b == "repo"@ || b == "keep"@ {
        assert(b != "machine"@ && b != "home"@ && b != "."@) by {
            if b == "repo"@ {
                assert(b[0] != "home"@[0]);
            }
            if b == "keep"@ {
                assert(b[0] != "home"@[0]);
            }
            if b == "entries"@ {
                assert(b[0] != "machine"@[0]);
            }
        }
    }
}

/// Two command lines that differ only in which update alias they use select
/// the same mode.
pub proof fn law_update_alias_irrelevant(args1: Seq<String>, args2: Seq<String>)
    requires
        rest_of(args1).len() >= 2,
        rest_of(args2).len() >= 2,
        rest_of(args1)[0]@ == "update"@ || rest_of(args1)[0]@ == "sync"@ || rest_of(args1)[0]@ == "-S"@,
        rest_of(args2)[0]@ == "update"@ || rest_of(args2)[0]@ == "sync"@ || rest_of(args2)[0]@ == "-S"@,
        rest_of(args1)[1]@ == rest_of(args2)[1]@,
    ensures
        parse_spec(args1) == parse_spec(args2),
{
    law_update_target_decides(args1);
    law_update_target_decides(args2);
    lemma_words();
    let a1 = rest_of(args1)[0]@;
    let a2 = rest_of(args2)[0]@;
    assert(a1 != "help"@ && a1 != "-h"@ && a1 != "check"@ && a1 != "changes"@ && a1 != "-c"@
        && a1 != "status"@ && a1 != "-s"@) by {
        if a1 == "update"@ {
            assert(a1[0] != "status"@[0]);
        }
        if a1 == "sync"@ {
            assert(a1[0] != "help"@[0]);
        }
        if a1 == "-S"@ {
            assert(a1[1] != "-h"@[1] && a1[1] != "-c"@[1] && a1[1] != "-s"@[1]);
        }
    }
    assert(a2 != "help"@ && a2 != "-h"@ && a2 != "check"@ && a2 != "changes"@ && a2 != "-c"@
        && a2 != "status"@ && a2 != "-s"@) by {
        if a2 == "update"@ {
            assert(a2[0] != "status"@[0]);
        }
        if a2 == "sync"@ {
            assert(a2[0] != "help"@[0]);
        }
        if a2 == "-S"@ {
            assert(a2[1] != "-h"@[1] && a2[1] != "-c"@[1] && a2[1] != "-s"@[1]);
        }
    }
}

/// Exactly the modes that act on the repository or the entries read the
/// configuration: every git mode, the status, the check and both updates
/// need it; only help, an unknown mode, a switch of group and editing the
/// configuration do without.
pub proof fn law_config_needed_by_acting_modes(m: CliMode)
    ensures
        !mode_needs_config(m) <==> (m is Help || m is Unknow || m is Switch || m is Edit),
        m is Git ==> mode_needs_config(m),
        (m is Status || m is Check || m is UpdateMachine || m is UpdateEntries) ==> mode_needs_config(m),
{
}

} // verus!
