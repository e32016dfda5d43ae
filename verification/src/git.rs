//! What git is asked to run in a kept repository, and how its output is
//! reported.

use vstd::prelude::*;
use vstd::string::*;
use crate::cli::GitMode;
use crate::text::decode_utf8;

verus! {

/// The argument lists of the git commands that a mode runs, in order. The
/// output of the last one is printed.
pub open spec fn git_plan(mode: GitMode) -> Seq<Seq<Seq<char>>> {
    match mode {
        GitMode::Status => seq![seq!["status"@]],
        GitMode::Push(msg) => seq![seq!["add"@, "."@], seq!["commit"@, "-m"@, msg@], seq!["push"@]],
        GitMode::Pull => seq![seq!["pull"@]],
        GitMode::Restore => seq![seq!["restore"@, "."@]],
    }
}

/// The views of a list of argument lists.
pub open spec fn commands_view(cmds: Seq<Vec<String>>) -> Seq<Seq<Seq<char>>> {
    cmds.map_values(|args: Vec<String>| args@.map_values(|a: String| a@))
}

/// An argument list of one word.
fn one(a: &str) -> (r: Vec<String>)
    ensures
        r@.map_values(|s: String| s@) == seq![a@],
{
    let mut v = Vec::new();
    v.push(String::from_str(a));
    assert(v@.map_values(|s: String| s@) =~= seq![a@]);
    v
}

/// An argument list of two words.
fn two(a: &str, b: &str) -> (r: Vec<String>)
    ensures
        r@.map_values(|s: String| s@) == seq![a@, b@],
{
    let mut v = Vec::new();
    v.push(String::from_str(a));
    v.push(String::from_str(b));
    assert(v@.map_values(|s: String| s@) =~= seq![a@, b@]);
    v
}

/// The git commands that a mode runs, as argument lists.
pub fn git_commands(mode: &GitMode) -> (r: Vec<Vec<String>>)
    ensures
        commands_view(r@) == git_plan(*mode),
{
    let mut cmds: Vec<Vec<String>> = Vec::new();
    match mode {
        GitMode::Status => {
            cmds.push(one("status"));
        },
        GitMode::Push(msg) => {
            cmds.push(two("add", "."));
            let mut commit = two("commit", "-m");
            commit.push(msg.clone());
            assert(commit@.map_values(|s: String| s@) =~= seq!["commit"@, "-m"@, msg@]) by {
                assert(commit@.drop_last().map_values(|s: String| s@) =~= seq!["commit"@, "-m"@]);
                assert(commit@.drop_last() == commit@.take(2));
            }
            cmds.push(commit);
            cmds.push(one("push"));
        },
        GitMode::Pull => {
            cmds.push(one("pull"));
        },
        GitMode::Restore => {
            cmds.push(two("restore", "."));
        },
    }
    assert(commands_view(cmds@) =~= git_plan(*mode));
    cmds
}

/// Whether the user is asked before the commands of a mode run: only a
/// restore, which throws changes away, asks.
pub fn needs_confirmation(mode: &GitMode) -> (b: bool)
    ensures
        b == (*mode is Restore),
{
    match mode {
        GitMode::Restore => true,
        _ => false,
    }
}

/// The question asked before restoring the repository at `path`.
pub fn restore_prompt(path: &str) -> (r: String)
    ensures
        r@ == "Are you sure you want to restore the changes made to the repository at ["@ + path@ + "]"@,
{
    let mut out = String::from_str("Are you sure you want to restore the changes made to the repository at [");
    out.append(path);
    out.append("]");
    out
}

/// What is printed where a restore is declined.
pub fn restore_declined() -> (r: &'static str)
    ensures
        r@ == "Aborting restore!"@,
{
    "Aborting restore!"
}

/// The report of a git command: its standard output, a line break and its
/// standard error.
pub fn join_output(out: &String, err: &String) -> (r: String)
    ensures
        r@ == out@ + "\n"@ + err@,
{
    let mut text = out.clone();
    text.append("\n");
    text.append(err.as_str());
    text
}

/// The report of a git command from the bytes it wrote, or `None` where
/// either stream is not valid UTF-8.
pub fn command_report(stdout: Vec<u8>, stderr: Vec<u8>) -> (r: Option<String>)
    ensures
        r is Some == (vstd::utf8::valid_utf8(stdout@) && vstd::utf8::valid_utf8(stderr@)),
        r matches Some(text) ==> text@ == vstd::utf8::decode_utf8(stdout@) + "\n"@ + vstd::utf8::decode_utf8(stderr@),
{
    let out = match decode_utf8(stdout) {
        Some(s) => s,
        None => return None,
    };
    let err = match decode_utf8(stderr) {
        Some(s) => s,
        None => return None,
    };
    Some(join_output(&out, &err))
}

} // verus!
