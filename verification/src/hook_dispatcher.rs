//! The scripts that hooks call, which stay the same while the program behind them changes.
use vstd::prelude::*;
use crate::digest;
use crate::paths;
use crate::shell;
use crate::text;
use crate::digest::digest_text;
use crate::paths::{components_of, file_name, join_path};
use crate::shell::{shell_command_segments, shell_quote};
use crate::text::{
    cat2, cat3, cat4, cat5, chars_of, has_prefix, part_of, same_text, strip_suffix_text,
};
use crate::workspace::Workspace;

verus! {

/// A script and what it needs.
#[derive(Debug, Clone, PartialEq, Eq)]
pub struct Dispatcher {
    /// The directory of the scripts.
    pub directory: String,
    pub path: String,
    pub script: String,
    /// The link to the program that the script runs.
    pub target: String,
}

/// What a [`Dispatcher`] holds.
pub struct DispatcherView {
    pub directory: Seq<char>,
    pub path: Seq<char>,
    pub script: Seq<char>,
    pub target: Seq<char>,
}

impl View for Dispatcher {
    type V = DispatcherView;

    open spec fn view(&self) -> DispatcherView {
        DispatcherView {
            directory: self.directory@,
            path: self.path@,
            script: self.script@,
            target: self.target@,
        }
    }
}

/// The script for an identity: its name depends on the identity alone, and it runs the program
/// that is linked beside it.
pub open spec fn dispatcher_for(
    state_root: Seq<char>,
    prefix: Seq<char>,
    identity: Seq<char>,
    description: Seq<char>,
    arguments: Seq<char>,
) -> DispatcherView {
    let directory = paths::joined(state_root, "hook-dispatchers"@);
    let path = paths::joined(directory, prefix + "-"@ + digest::text_digest(identity));
    DispatcherView {
        directory,
        path,
        script: "#!/bin/sh\n# "@ + description + "\nexec \"$0.resync\" "@ + arguments + "\n"@,
        target: path + ".resync"@,
    }
}

fn ensure_dispatcher(
    state_root: &str,
    prefix: &str,
    identity: &str,
    description: &str,
    arguments: &str,
) -> (r: Dispatcher)
    ensures
        r@ == dispatcher_for(state_root@, prefix@, identity@, description@, arguments@),
{
    let digest = digest_text(identity);
    let directory = join_path(state_root, "hook-dispatchers");
    let name = cat3(prefix, "-", digest.as_str());
    let path = join_path(directory.as_str(), name.as_str());
    let script = cat5(
        "#!/bin/sh\n# ",
        description,
        "\nexec \"$0.resync\" ",
        arguments,
        "\n",
    );
    let target = cat2(path.as_str(), ".resync");
    Dispatcher { directory, path, script, target }
}

/// The script of a project.
pub open spec fn project_dispatcher(state_root: Seq<char>, project_id: Seq<char>) -> DispatcherView {
    dispatcher_for(
        state_root,
        "codex"@,
        project_id,
        "RepoSync Codex hook dispatcher v1"@,
        "codex-hook "@ + shell::quoted_word(project_id),
    )
}

/// The script of a project.
pub fn ensure_project_dispatcher(state_root: &str, project_id: &str) -> (r: Dispatcher)
    ensures
        r@ == project_dispatcher(state_root@, project_id@),
{
    let word = shell_quote(project_id);
    let arguments = cat2("codex-hook ", word.as_str());
    ensure_dispatcher(
        state_root,
        "codex",
        project_id,
        "RepoSync Codex hook dispatcher v1",
        arguments.as_str(),
    )
}

/// The script of a workspace.
pub open spec fn workspace_dispatcher(
    state_root: Seq<char>,
    manifest_path: Seq<char>,
) -> DispatcherView {
    dispatcher_for(
        state_root,
        "codex-workspace"@,
        manifest_path,
        "RepoSync Codex workspace hook dispatcher v1"@,
        "codex-workspace-hook "@ + shell::quoted_word(manifest_path),
    )
}

/// The script of a workspace.
pub fn ensure_workspace_dispatcher(state_root: &str, manifest_path: &str) -> (r: Dispatcher)
    ensures
        r@ == workspace_dispatcher(state_root@, manifest_path@),
{
    let word = shell_quote(manifest_path);
    let arguments = cat2("codex-workspace-hook ", word.as_str());
    ensure_dispatcher(
        state_root,
        "codex-workspace",
        manifest_path,
        "RepoSync Codex workspace hook dispatcher v1",
        arguments.as_str(),
    )
}

/// The program that a project or a workspace has called by its hooks.
#[derive(Debug, Clone, Copy, PartialEq, Eq, Structural)]
pub enum HookKind {
    Project,
    Workspace,
}

/// The subcommand that hooks of a kind call.
pub open spec fn hook_subcommand(kind: HookKind) -> Seq<char> {
    match kind {
        HookKind::Project => "codex-hook"@,
        HookKind::Workspace => "codex-workspace-hook"@,
    }
}

/// Whether a path is that of a script of a kind: in a directory of scripts, with the name that
/// scripts of the kind have.
pub open spec fn is_script_path(path: Seq<char>, kind: HookKind) -> bool {
    let along = paths::components(path);
    &&& along.len() >= 2
    &&& along[along.len() - 2] == "hook-dispatchers"@
    &&& match kind {
        HookKind::Project => "codex-"@.is_prefix_of(along.last())
            && !"codex-workspace-"@.is_prefix_of(along.last()),
        HookKind::Workspace => "codex-workspace-"@.is_prefix_of(along.last()),
    }
}

/// Whether a command is one that this program installed as a hook of a kind, in any form that it
/// ever had: a call of the program with the subcommand, or a call of a script.
pub open spec fn is_own_command(command: Seq<char>, kind: HookKind) -> bool {
    let segments = shell::command_segments(command);
    &&& segments.len() == 1
    &&& {
        let words = segments[0];
        ||| words.len() >= 2 && paths::last_name(words[0]) == Some("resync"@) && words[1]
            == hook_subcommand(kind)
        ||| words.len() == 1 && is_script_path(words[0], kind)
    }
}

fn script_path(path: &str, kind: HookKind) -> (r: bool)
    ensures
        r == is_script_path(path@, kind),
{
    let along = components_of(path);
    let ghost all = paths::components(path@);
    assert(all.len() == along.len());
    if along.len() < 2 {
        return false;
    }
    let n = along.len();
    assert(all[n - 2] == along@[n - 2]@);
    assert(all.last() == along@[n - 1]@);
    if !same_text(along[n - 2].as_str(), "hook-dispatchers") {
        return false;
    }
    let name = along[n - 1].as_str();
    match kind {
        HookKind::Project => has_prefix(name, "codex-") && !has_prefix(name, "codex-workspace-"),
        HookKind::Workspace => has_prefix(name, "codex-workspace-"),
    }
}

/// Whether a command is one that this program installed as a hook of a kind.
pub fn own_command(command: &str, kind: HookKind) -> (r: bool)
    ensures
        r == is_own_command(command@, kind),
{
    let segments = shell_command_segments(command);
    let ghost all = shell::command_segments(command@);
    if segments.len() != 1 {
        return false;
    }
    assert(all[0] == text::views(segments@[0]@));
    let words = &segments[0];
    if words.len() >= 2 {
        assert(all[0][0] == words@[0]@);
        assert(all[0][1] == words@[1]@);
        let named = match file_name(words[0].as_str()) {
            Some(name) => same_text(name.as_str(), "resync"),
            None => false,
        };
        let subcommand = match kind {
            HookKind::Project => "codex-hook",
            HookKind::Workspace => "codex-workspace-hook",
        };
        named && same_text(words[1].as_str(), subcommand)
    } else if words.len() == 1 {
        assert(all[0][0] == words@[0]@);
        script_path(words[0].as_str(), kind)
    } else {
        false
    }
}

/// Whether a command is a hook of a project that this program installed.
pub fn is_reposync_project_command(command: &str) -> (r: bool)
    ensures
        r == is_own_command(command@, HookKind::Project),
{
    own_command(command, HookKind::Project)
}

/// Whether a command is a hook of a workspace that this program installed.
pub fn is_reposync_workspace_command(command: &str) -> (r: bool)
    ensures
        r == is_own_command(command@, HookKind::Workspace),
{
    own_command(command, HookKind::Workspace)
}

/// Whether a character is a quote.
pub open spec fn is_quote(c: char) -> bool {
    c == '\'' || c == '"'
}

/// A text without the quotes at its start.
pub open spec fn unquoted_start(s: Seq<char>) -> Seq<char>
    decreases s.len(),
{
    if s.len() > 0 && is_quote(s[0]) {
        unquoted_start(s.skip(1))
    } else {
        s
    }
}

/// A text without the quotes at its end.
pub open spec fn unquoted_end(s: Seq<char>) -> Seq<char>
    decreases s.len(),
{
    if s.len() > 0 && is_quote(s.last()) {
        unquoted_end(s.drop_last())
    } else {
        s
    }
}

/// A text without the quotes at its ends.
pub open spec fn unquoted(s: Seq<char>) -> Seq<char> {
    unquoted_end(unquoted_start(s))
}

/// A text without the quotes at its ends.
pub fn trim_quotes(s: &str) -> (r: String)
    ensures
        r@ == unquoted(s@),
{
    let c = chars_of(s);
    let mut from: usize = 0;
    assert(s@.skip(0) =~= s@);
    while from < c.len() && (c[from] == '\'' || c[from] == '"')
        invariant
            0 <= from <= c.len(),
            c@ == s@,
            unquoted_start(s@) == unquoted_start(s@.skip(from as int)),
        decreases c.len() - from,
    {
        assert(s@.skip(from as int).skip(1) =~= s@.skip(from + 1));
        from += 1;
    }
    let ghost start = s@.skip(from as int);
    let mut to: usize = c.len();
    assert(s@.subrange(from as int, to as int) =~= start);
    while from < to && (c[to - 1] == '\'' || c[to - 1] == '"')
        invariant
            0 <= from <= to <= c.len(),
            c@ == s@,
            unquoted_end(start) == unquoted_end(s@.subrange(from as int, to as int)),
        decreases to - from,
    {
        let ghost part = s@.subrange(from as int, to as int);
        assert(part.last() == c@[to - 1]);
        assert(part.drop_last() =~= s@.subrange(from as int, to - 1));
        to -= 1;
    }
    part_of(&c, from, to)
}

/// Whether a command is the form that older versions installed for a project.
pub open spec fn legacy_form(command: Seq<char>, subcommand: Seq<char>, argument: Seq<char>) -> bool {
    match text::before_suffix(command, " "@ + subcommand + " "@ + shell::quoted_word(argument)) {
        Some(executable) => paths::last_name(unquoted(executable)) == Some("resync"@),
        None => false,
    }
}

fn is_legacy_form(command: &str, subcommand: &str, argument: &str) -> (r: bool)
    ensures
        r == legacy_form(command@, subcommand@, argument@),
{
    let word = shell_quote(argument);
    let suffix = cat4(" ", subcommand, " ", word.as_str());
    match strip_suffix_text(command, suffix.as_str()) {
        Some(executable) => {
            let path = trim_quotes(executable.as_str());
            match file_name(path.as_str()) {
                Some(name) => same_text(name.as_str(), "resync"),
                None => false,
            }
        },
        None => false,
    }
}

/// Whether a command is the hook that older versions installed for a project.
pub fn is_legacy_project_command(command: &str, project_id: &str) -> (r: bool)
    ensures
        r == legacy_form(command@, "codex-hook"@, project_id@),
{
    is_legacy_form(command, "codex-hook", project_id)
}

/// Whether a command is the hook that older versions installed for a workspace.
pub fn is_legacy_workspace_command(command: &str, manifest_path: &str) -> (r: bool)
    ensures
        r == legacy_form(command@, "codex-workspace-hook"@, manifest_path@),
{
    is_legacy_form(command, "codex-workspace-hook", manifest_path)
}

} // verus!
