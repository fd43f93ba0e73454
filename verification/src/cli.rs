//! What the words of a command line, and the calls of hooks, mean.
use vstd::prelude::*;
use crate::hook_dispatcher;
use crate::hooks;
use crate::json;
use crate::named_lease;
use crate::paths;
use crate::peer;
use crate::shell;
use crate::text;
use crate::hook_dispatcher::{
    ensure_project_dispatcher, ensure_workspace_dispatcher, trim_quotes, Dispatcher, HookKind,
};
use crate::hooks::{make_object, repair_hooks, set_member, text_pair};
use crate::json::{Json, JsonView};
use crate::named_lease::NamedLeaseError;
use crate::paths::{file_name, join_path};
use crate::process::words2;
use crate::protocol::{NamedLeaseMutationResponse, NamedLeaseOutcome};
use crate::shell::{shell_command_segments, shell_quote};
use crate::state::LocalProject;
use crate::text::{
    cat2, cat3, cat4, cat5, chars_of, contains_text, copy_list, copy_option, has_prefix, has_suffix,
    join_text, lines_of, list_has, parse_number, part_of, same_text, space, strip_suffix_text,
    trimmed,
};
use crate::workspace::Workspace;

verus! {

/// The words that stand for a longer command.
pub open spec fn alias_of(word: Seq<char>) -> Option<(Seq<char>, Seq<char>)> {
    if word == "login"@ {
        Some(("auth"@, "login"@))
    } else if word == "init"@ {
        Some(("project"@, "init"@))
    } else if word == "join"@ || word == "subscribe"@ {
        Some(("project"@, "join"@))
    } else if word == "fork"@ {
        Some(("project"@, "fork"@))
    } else if word == "unsubscribe"@ {
        Some(("project"@, "leave"@))
    } else if word == "status"@ {
        Some(("project"@, "status"@))
    } else if word == "sync"@ {
        Some(("project"@, "sync"@))
    } else if word == "publish"@ {
        Some(("project"@, "publish"@))
    } else if word == "conflicts"@ {
        Some(("project"@, "conflicts"@))
    } else if word == "recover"@ {
        Some(("project"@, "recover"@))
    } else if word == "devices"@ {
        Some(("device"@, "list"@))
    } else {
        None
    }
}

fn alias(word: &str) -> (r: Option<(&'static str, &'static str)>)
    ensures
        match r {
            Some((a, b)) => alias_of(word@) == Some((a@, b@)),
            None => alias_of(word@) is None,
        },
{
    if same_text(word, "login") {
        Some(("auth", "login"))
    } else if same_text(word, "init") {
        Some(("project", "init"))
    } else if same_text(word, "join") || same_text(word, "subscribe") {
        Some(("project", "join"))
    } else if same_text(word, "fork") {
        Some(("project", "fork"))
    } else if same_text(word, "unsubscribe") {
        Some(("project", "leave"))
    } else if same_text(word, "status") {
        Some(("project", "status"))
    } else if same_text(word, "sync") {
        Some(("project", "sync"))
    } else if same_text(word, "publish") {
        Some(("project", "publish"))
    } else if same_text(word, "conflicts") {
        Some(("project", "conflicts"))
    } else if same_text(word, "recover") {
        Some(("project", "recover"))
    } else if same_text(word, "devices") {
        Some(("device", "list"))
    } else {
        None
    }
}

/// Whether a word is a command.
pub open spec fn is_known(word: Seq<char>) -> bool {
    word == "auth"@ || word == "project"@ || word == "device"@ || word == "lease"@ || word
        == "peer"@ || word == "daemon"@ || word == "doctor"@ || word == "upgrade"@ || word
        == "activate-upgrade"@ || word == "gc"@ || word == "transaction-debug"@ || word
        == "install-adapters"@ || word == "workspace"@ || word == "acquire"@ || word == "release"@
        || word == "codex-hook"@ || word == "codex-workspace-hook"@ || word == "report-commit"@
        || word == "report-checkout"@ || word == "help"@
}

fn known(word: &str) -> (r: bool)
    ensures
        r == is_known(word@),
{
    same_text(word, "auth") || same_text(word, "project") || same_text(word, "device")
        || same_text(word, "lease") || same_text(word, "peer") || same_text(word, "daemon")
        || same_text(word, "doctor") || same_text(word, "upgrade") || same_text(
        word,
        "activate-upgrade",
    ) || same_text(word, "gc") || same_text(word, "transaction-debug") || same_text(
        word,
        "install-adapters",
    ) || same_text(word, "workspace") || same_text(word, "acquire") || same_text(word, "release")
        || same_text(word, "codex-hook") || same_text(word, "codex-workspace-hook") || same_text(
        word,
        "report-commit",
    ) || same_text(word, "report-checkout") || same_text(word, "help")
}

/// The position of the first word that is not about the directory of the state, from `from` on.
pub open spec fn command_position(args: Seq<Seq<char>>, from: int) -> int
    decreases
        if from < args.len() {
            args.len() - from
        } else {
            0
        },
{
    if from >= args.len() {
        from
    } else if args[from] == "--state-dir"@ {
        command_position(args, from + 2)
    } else if "--state-dir="@.is_prefix_of(args[from]) {
        command_position(args, from + 1)
    } else {
        from
    }
}

/// The words of a command line with aliases written out; a first word that is no command is taken
/// for another machine where the checkout at hand is enrolled.
pub open spec fn preprocessed(args: Seq<Seq<char>>, enrolled: bool) -> Seq<Seq<char>> {
    let i = command_position(args, 1);
    if args.len() < 2 || i >= args.len() {
        args
    } else {
        let word = args[i];
        match alias_of(word) {
            Some((a, b)) => args.take(i) + seq![a, b] + args.skip(i + 1),
            None => if !is_known(word) && !"-"@.is_prefix_of(word) && enrolled {
                args.take(i) + seq!["peer"@, "sync"@] + args.skip(i)
            } else {
                args
            },
        }
    }
}

/// Writes aliases out in the words of a command line.
pub fn preprocess_arguments(args: Vec<String>, enrolled: bool) -> (r: Vec<String>)
    ensures
        text::views(r@) == preprocessed(text::views(args@), enrolled),
{
    let ghost all = text::views(args@);
    if args.len() < 2 {
        return args;
    }
    let mut index: usize = 1;
    while index < args.len()
        invariant
            all == text::views(args@),
            all.len() == args.len(),
            1 <= index,
            command_position(all, 1) == command_position(all, index as int),
        ensures
            command_position(all, 1) == index,
            1 <= index,
        decreases args.len() - index,
    {
        assert(all[index as int] == args@[index as int]@);
        if same_text(args[index].as_str(), "--state-dir") {
            if index + 1 >= args.len() {
                assert(command_position(all, index + 2) == index + 2);
                return args;
            }
            index += 2;
        } else if has_prefix(args[index].as_str(), "--state-dir=") {
            index += 1;
        } else {
            break ;
        }
    }
    if index >= args.len() {
        return args;
    }
    assert(all[index as int] == args@[index as int]@);
    let mut args = args;
    match alias(args[index].as_str()) {
        Some((first, second)) => {
            args.set(index, second.to_owned());
            args.insert(index, first.to_owned());
            assert(text::views(args@) =~= all.take(index as int) + seq![first@, second@] + all.skip(
                index + 1,
            ));
        },
        None => {
            if !known(args[index].as_str()) && !has_prefix(args[index].as_str(), "-")
                && enrolled {
                args.insert(index, "sync".to_owned());
                args.insert(index, "peer".to_owned());
                assert(text::views(args@) =~= all.take(index as int) + seq!["peer"@, "sync"@]
                    + all.skip(index as int));
            }
        },
    }
    args
}

/// Whether the version of the program is asked for.
pub fn asks_for_version(args: &Vec<String>) -> (r: bool)
    ensures
        r == (text::views(args@).contains("--version"@) || text::views(args@).contains("-V"@)),
{
    list_has(args, "--version") || list_has(args, "-V")
}

/// A span of time.
#[derive(Debug, Clone, Copy, PartialEq, Eq, Structural)]
pub struct Interval {
    pub seconds: u64,
    /// Less than a thousand.
    pub millis: u64,
}

/// The number that digits, which a plus sign may precede, stand for.
pub open spec fn parsed_count(s: Seq<char>) -> Option<nat> {
    let digits = if s.len() > 0 && s[0] == '+' {
        s.skip(1)
    } else {
        s
    };
    match text::parse_decimal(digits) {
        Some(n) => if n <= u64::MAX {
            Some(n)
        } else {
            None
        },
        None => None,
    }
}

fn parse_count(s: &str) -> (r: Option<u64>)
    ensures
        match r {
            Some(n) => parsed_count(s@) == Some(n as nat),
            None => parsed_count(s@) is None,
        },
{
    let c = chars_of(s);
    if c.len() > 0 && c[0] == '+' {
        let rest = part_of(&c, 1, c.len());
        assert(rest@ =~= s@.skip(1));
        parse_number(rest.as_str())
    } else {
        parse_number(s)
    }
}

/// The span of time that a text stands for: a number of milliseconds, seconds or minutes, or of
/// seconds where no unit is given.
pub open spec fn duration_of(value: Seq<char>) -> Option<Interval> {
    match text::before_suffix(value, "ms"@) {
        Some(digits) => match parsed_count(digits) {
            Some(n) => Some(
                Interval { seconds: (n / 1000) as u64, millis: (n % 1000) as u64 },
            ),
            None => None,
        },
        None => match text::before_suffix(value, "s"@) {
            Some(digits) => match parsed_count(digits) {
                Some(n) => Some(Interval { seconds: n as u64, millis: 0 }),
                None => None,
            },
            None => match text::before_suffix(value, "m"@) {
                Some(digits) => match parsed_count(digits) {
                    Some(n) => if n * 60 <= u64::MAX {
                        Some(Interval { seconds: (n * 60) as u64, millis: 0 })
                    } else {
                        None
                    },
                    None => None,
                },
                None => match parsed_count(value) {
                    Some(n) => Some(Interval { seconds: n as u64, millis: 0 }),
                    None => None,
                },
            },
        },
    }
}

/// Reads a span of time.
pub fn parse_duration(value: &str) -> (r: Option<Interval>)
    ensures
        r == duration_of(value@),
{
    match strip_suffix_text(value, "ms") {
        Some(digits) => {
            return match parse_count(digits.as_str()) {
                Some(n) => Some(Interval { seconds: n / 1000, millis: n % 1000 }),
                None => None,
            };
        },
        None => {},
    }
    match strip_suffix_text(value, "s") {
        Some(digits) => {
            return match parse_count(digits.as_str()) {
                Some(n) => Some(Interval { seconds: n, millis: 0 }),
                None => None,
            };
        },
        None => {},
    }
    match strip_suffix_text(value, "m") {
        Some(digits) => {
            return match parse_count(digits.as_str()) {
                Some(n) => match n.checked_mul(60) {
                    Some(seconds) => Some(Interval { seconds, millis: 0 }),
                    None => None,
                },
                None => None,
            };
        },
        None => {},
    }
    match parse_count(value) {
        Some(n) => Some(Interval { seconds: n, millis: 0 }),
        None => None,
    }
}

/// Reads the time that a lease is wanted for: a span of whole seconds.
pub fn parse_ttl(value: &str) -> (r: Option<u64>)
    ensures
        r == match duration_of(value@) {
            Some(interval) => if interval.millis == 0 {
                Some(interval.seconds)
            } else {
                None
            },
            None => None,
        },
{
    match parse_duration(value) {
        Some(interval) => if interval.millis == 0 {
            Some(interval.seconds)
        } else {
            None
        },
        None => None,
    }
}

/// The exit code for an outcome of a lease: contention is told apart from other failures.
pub open spec fn lease_exit_code(outcome: NamedLeaseOutcome) -> i32 {
    match outcome {
        NamedLeaseOutcome::Held => 3,
        _ => 1,
    }
}

/// What the program leaves behind where the provider refused a lease: a document for the standard
/// output, words for the standard error, and an exit code.
#[derive(Debug)]
pub struct StructuredError<'a> {
    pub response: &'a NamedLeaseMutationResponse,
    pub diagnostic: String,
    pub exit_code: i32,
}

/// What the program leaves behind after an error, where that is more than words.
pub fn structured_error(error: &NamedLeaseError) -> (r: Option<StructuredError<'_>>)
    ensures
        match (*error, r) {
            (NamedLeaseError::Outcome(inner), Some(s)) => *s.response == inner.response
                && s.diagnostic@ == named_lease::named_lease_text(*error) && s.exit_code == lease_exit_code(
                inner.response.outcome,
            ),
            (NamedLeaseError::Outcome(_), None) => false,
            (_, Some(_)) => false,
            (_, None) => true,
        },
{
    match error {
        NamedLeaseError::Outcome(inner) => {
            let exit_code = match inner.response.outcome {
                NamedLeaseOutcome::Held => 3,
                _ => 1,
            };
            Some(
                StructuredError {
                    response: &inner.response,
                    diagnostic: error.message(),
                    exit_code,
                },
            )
        },
        _ => None,
    }
}

/// Whether a character ends a word of a command.
pub open spec fn is_break(c: char) -> bool {
    text::is_space(c) || shell::is_separator(c)
}

/// The pieces of a command between the characters that end words, and the characters of the piece
/// at its end.
pub open spec fn pieces_and_rest(s: Seq<char>) -> (Seq<Seq<char>>, Seq<char>)
    decreases s.len(),
{
    if s.len() == 0 {
        (Seq::empty(), Seq::empty())
    } else {
        let (pieces, rest) = pieces_and_rest(s.drop_last());
        if is_break(s.last()) {
            (pieces.push(rest), Seq::empty())
        } else {
            (pieces, rest.push(s.last()))
        }
    }
}

/// The pieces of a command between the characters that end words.
pub open spec fn command_pieces(s: Seq<char>) -> Seq<Seq<char>> {
    let (pieces, rest) = pieces_and_rest(s);
    pieces.push(rest)
}

/// Whether a word, without the quotes around it, is Git.
pub open spec fn names_git(word: Seq<char>) -> bool {
    hook_dispatcher::unquoted(word) == "git"@ || "/git"@.is_suffix_of(hook_dispatcher::unquoted(word))
}

/// Whether a command calls Git.
pub open spec fn invokes_git(command: Seq<char>) -> bool {
    exists|i: int|
        0 <= i < command_pieces(command).len() && names_git(#[trigger] command_pieces(command)[i])
}

fn git_word(word: &str) -> (r: bool)
    ensures
        r == names_git(word@),
{
    let bare = trim_quotes(word);
    same_text(bare.as_str(), "git") || has_suffix(bare.as_str(), "/git")
}

/// Whether a command calls Git.
pub fn command_invokes_git(command: &str) -> (r: bool)
    ensures
        r == invokes_git(command@),
{
    let c = chars_of(command);
    let mut pieces: Vec<String> = Vec::new();
    let mut rest = String::new();
    let mut i: usize = 0;
    assert(text::views(pieces@) =~= Seq::empty());
    assert(rest@ =~= Seq::empty());
    assert(command@.take(0) =~= Seq::empty());
    while i < c.len()
        invariant
            0 <= i <= c.len(),
            c@ == command@,
            (text::views(pieces@), rest@) == pieces_and_rest(command@.take(i as int)),
        decreases c.len() - i,
    {
        let ghost next = command@.take(i + 1);
        assert(next.drop_last() =~= command@.take(i as int));
        let ghost before = pieces@;
        let h = c[i];
        if space(h) || h == ';' || h == '|' || h == '&' || h == '(' || h == ')' {
            let mut piece = String::new();
            std::mem::swap(&mut piece, &mut rest);
            let ghost text = piece@;
            pieces.push(piece);
            assert(text::views(pieces@) =~= text::views(before).push(text));
            assert(rest@ =~= Seq::empty());
        } else {
            rest.push(h);
        }
        i += 1;
    }
    assert(command@.take(i as int) =~= command@);
    let ghost before = pieces@;
    let ghost text = rest@;
    pieces.push(rest);
    assert(text::views(pieces@) =~= text::views(before).push(text));
    let ghost all = command_pieces(command@);
    let mut k: usize = 0;
    while k < pieces.len()
        invariant
            0 <= k <= pieces.len(),
            all == text::views(pieces@),
            all == command_pieces(command@),
            forall|j: int| 0 <= j < k ==> !names_git(#[trigger] all[j]),
        decreases pieces.len() - k,
    {
        assert(all[k as int] == pieces@[k as int]@);
        if git_word(pieces[k].as_str()) {
            assert(names_git(command_pieces(command@)[k as int]));
            return true;
        }
        k += 1;
    }
    false
}

/// The command that a tool is about to run, where the tool is the shell.
pub open spec fn tool_command(input: Json) -> Option<Seq<char>> {
    if json::text_field(input, "tool_name"@) == Some("Bash"@) {
        match json::field(input, "tool_input"@) {
            Some(inner) => json::text_field(inner, "command"@),
            None => None,
        }
    } else {
        None
    }
}

/// The command that a tool is about to run.
pub fn hook_command(input: &Json) -> (r: Option<&str>)
    ensures
        peer::str_view(r) == tool_command(*input),
{
    let shell = match input.text_at("tool_name") {
        Some(name) => same_text(name, "Bash"),
        None => false,
    };
    if !shell {
        return None;
    }
    match input.get("tool_input") {
        Some(inner) => inner.text_at("command"),
        None => None,
    }
}

/// Whether the words of a command synchronize a project by hand.
pub open spec fn is_sync_call(words: Seq<Seq<char>>) -> bool {
    words.len() >= 3 && paths::last_name(words[0]) == Some("resync"@) && words[1] == "project"@
        && words[2] == "sync"@
}

/// Whether a command synchronizes a project by hand.
pub open spec fn syncs_by_hand(command: Seq<char>) -> bool {
    exists|i: int|
        0 <= i < shell::command_segments(command).len() && is_sync_call(
            #[trigger] shell::command_segments(command)[i],
        )
}

/// Whether a tool is about to synchronize a project by hand.
pub open spec fn is_project_sync(input: Json) -> bool {
    match tool_command(input) {
        Some(command) => syncs_by_hand(command),
        None => false,
    }
}

fn sync_call(words: &Vec<String>) -> (r: bool)
    ensures
        r == is_sync_call(text::views(words@)),
{
    if words.len() < 3 {
        return false;
    }
    let ghost all = text::views(words@);
    assert(all[0] == words@[0]@ && all[1] == words@[1]@ && all[2] == words@[2]@);
    let named = match file_name(words[0].as_str()) {
        Some(name) => same_text(name.as_str(), "resync"),
        None => false,
    };
    named && same_text(words[1].as_str(), "project") && same_text(words[2].as_str(), "sync")
}

/// Whether a tool is about to synchronize a project by hand.
pub fn is_project_sync_command(input: &Json) -> (r: bool)
    ensures
        r == is_project_sync(*input),
{
    let command = match hook_command(input) {
        Some(command) => command,
        None => {
            return false;
        },
    };
    let segments = shell_command_segments(command);
    let ghost all = shell::command_segments(command@);
    let mut i: usize = 0;
    while i < segments.len()
        invariant
            0 <= i <= segments.len(),
            all == shell::word_lists(segments@),
            all == shell::command_segments(command@),
            tool_command(*input) == Some(command@),
            forall|j: int| 0 <= j < i ==> !is_sync_call(#[trigger] all[j]),
        decreases segments.len() - i,
    {
        assert(all[i as int] == text::views(segments@[i as int]@));
        if sync_call(&segments[i]) {
            assert(is_sync_call(shell::command_segments(command@)[i as int]));
            assert(syncs_by_hand(command@));
            return true;
        }
        i += 1;
    }
    false
}

/// Whether a character can stand in the name of a file without care.
pub open spec fn is_safe(c: char) -> bool {
    let n = c as u32;
    (48 <= n && n <= 57) || (65 <= n && n <= 90) || (97 <= n && n <= 122) || c == '.' || c == '_'
        || c == '-'
}

/// A character that can stand in the name of a file: itself, or an underscore.
pub open spec fn safe_char(c: char) -> char {
    if is_safe(c) {
        c
    } else {
        '_'
    }
}

/// A part of the name of a file that stands for a text.
pub open spec fn safe_part(value: Option<Seq<char>>) -> Seq<char> {
    text::head(
        match value {
            Some(text) => text,
            None => "unknown"@,
        }.map_values(|c: char| safe_char(c)),
        160,
    )
}

/// A part of the name of a file that stands for a text: characters that need care are replaced,
/// and no more than 160 stay.
pub fn safe_hook_part(value: Option<&str>) -> (r: String)
    ensures
        r@ == safe_part(peer::str_view(value)),
{
    let text = match value {
        Some(text) => text,
        None => "unknown",
    };
    let ghost whole = text@.map_values(|c: char| safe_char(c));
    let c = chars_of(text);
    let mut r = String::new();
    let mut i: usize = 0;
    assert(r@ =~= whole.take(0));
    while i < c.len() && i < 160
        invariant
            0 <= i <= c.len(),
            i <= 160,
            c@ == text@,
            whole == text@.map_values(|c: char| safe_char(c)),
            r@ == whole.take(i as int),
        decreases c.len() - i,
    {
        let h = c[i];
        let n: u32 = h as u32;
        if (48 <= n && n <= 57) || (65 <= n && n <= 90) || (97 <= n && n <= 122) || h == '.' || h
            == '_' || h == '-' {
            r.push(h);
        } else {
            r.push('_');
        }
        assert(whole.take(i + 1) =~= whole.take(i as int).push(whole[i as int]));
        i += 1;
    }
    assert(r@ =~= text::head(whole, 160));
    r
}

/// A name that stands for a text leads to no other directory: it holds no slash, and is no longer
/// than 160 characters.
pub proof fn law_safe_part_is_a_name(value: Option<Seq<char>>)
    ensures
        safe_part(value).len() <= 160,
        forall|i: int| 0 <= i < safe_part(value).len() ==> is_safe(#[trigger] safe_part(value)[i]),
        !safe_part(value).contains('/'),
{
    let part = safe_part(value);
    assert forall|i: int| 0 <= i < part.len() implies is_safe(#[trigger] part[i]) by {
        assert(is_safe('_'));
    }
    if part.contains('/') {
        let i = choose|i: int| 0 <= i < part.len() && part[i] == '/';
        assert(is_safe(part[i]));
    }
}

/// The file that says that a session is told of a conflict.
pub fn reconciliation_marker(directory: &str, project_id: &str) -> (r: String)
    ensures
        r@ == paths::joined(directory@, "reconciliation-"@ + safe_part(Some(project_id@)) + ".json"@),
{
    let part = safe_hook_part(Some(project_id));
    let name = cat3("reconciliation-", part.as_str(), ".json");
    join_path(directory, name.as_str())
}

/// What becomes of the file that says that a session is told of a conflict.
#[derive(Debug, Clone, PartialEq, Eq)]
pub enum MarkerChange {
    /// It stays as it is, or missing.
    Keep,
    /// It is written, with the branch and the branch of the remote.
    Write(String, String),
    /// It is removed.
    Remove,
}

/// What a [`MarkerChange`] holds.
pub enum MarkerChangeView {
    Keep,
    Write(Seq<char>, Seq<char>),
    Remove,
}

impl View for MarkerChange {
    type V = MarkerChangeView;

    open spec fn view(&self) -> MarkerChangeView {
        match *self {
            MarkerChange::Keep => MarkerChangeView::Keep,
            MarkerChange::Write(a, b) => MarkerChangeView::Write(a@, b@),
            MarkerChange::Remove => MarkerChangeView::Remove,
        }
    }
}

/// What a session is told.
#[derive(Debug, Clone, PartialEq, Eq)]
pub struct HookMessages {
    pub system: Option<String>,
    pub context: Option<String>,
    pub marker: MarkerChange,
}

/// What a [`HookMessages`] holds.
pub struct HookMessagesView {
    pub system: Option<Seq<char>>,
    pub context: Option<Seq<char>>,
    pub marker: MarkerChangeView,
}

impl View for HookMessages {
    type V = HookMessagesView;

    open spec fn view(&self) -> HookMessagesView {
        HookMessagesView {
            system: text::opt_view(self.system),
            context: text::opt_view(self.context),
            marker: self.marker@,
        }
    }
}

/// What is said when a conflict starts.
pub open spec fn entry_text(branch: Seq<char>, remote_ref: Seq<char>) -> Seq<char> {
    "RepoSync entered reconciliation mode after automatic reconciliation failed. Your workspace remains usable, but publication is paused. Before continuing with the user's task, reconcile `"@
        + branch + "` with the latest `"@ + remote_ref
        + "`. After resolving any conflicts, run `resync project sync` to verify the result and leave reconciliation mode. Do not perform unrelated work until synchronization succeeds or reconciliation requires user input."@
}

/// What is said again while a conflict lasts.
pub open spec fn reminder_text(remote_ref: Seq<char>) -> Seq<char> {
    "RepoSync reconciliation mode: prioritize reconciling the latest `"@ + remote_ref
        + "` and run `resync project sync` before unrelated work."@
}

/// What is said when a conflict is over.
pub open spec fn exit_text() -> Seq<char> {
    "RepoSync reconciliation succeeded. Normal synchronization and publication have resumed."@
}

/// What a session is told, given whether it was told of a conflict before: of the start of a
/// conflict once, again where Git is called, and of its end once.
pub open spec fn messages_for(told: bool, input: Json, state: Json) -> HookMessagesView {
    let active = json::field(state, "reconciliation_mode"@) == Some(Json::Bool(true));
    let branch = match json::text_field(state, "branch"@) {
        Some(branch) => branch,
        None => "current branch"@,
    };
    let remote_ref = match json::text_field(state, "remote_ref"@) {
        Some(name) => name,
        None => "the RepoSync remote branch"@,
    };
    if active {
        if !told {
            let message = entry_text(branch, remote_ref);
            HookMessagesView {
                system: Some(message),
                context: Some(message),
                marker: MarkerChangeView::Write(branch, remote_ref),
            }
        } else {
            HookMessagesView {
                system: None,
                context: if tool_command(input) matches Some(command) && invokes_git(command) {
                    Some(reminder_text(remote_ref))
                } else {
                    None
                },
                marker: MarkerChangeView::Keep,
            }
        }
    } else if told {
        HookMessagesView {
            system: Some(exit_text()),
            context: Some(exit_text()),
            marker: MarkerChangeView::Remove,
        }
    } else {
        HookMessagesView { system: None, context: None, marker: MarkerChangeView::Keep }
    }
}

/// Says what a session is told; `told` is whether the marker of the conflict is there.
pub fn reconciliation_messages(told: bool, input: &Json, state: &Json) -> (r: HookMessages)
    ensures
        r@ == messages_for(told, *input, *state),
{
    let active = match state.get("reconciliation_mode") {
        Some(Json::Bool(value)) => *value,
        _ => false,
    };
    if !active {
        if !told {
            return HookMessages { system: None, context: None, marker: MarkerChange::Keep };
        }
        let words = "RepoSync reconciliation succeeded. Normal synchronization and publication have resumed.";
        return HookMessages {
            system: Some(words.to_owned()),
            context: Some(words.to_owned()),
            marker: MarkerChange::Remove,
        };
    }
    let branch = match state.text_at("branch") {
        Some(branch) => branch,
        None => "current branch",
    };
    let remote_ref = match state.text_at("remote_ref") {
        Some(name) => name,
        None => "the RepoSync remote branch",
    };
    if !told {
        let message = cat5(
            "RepoSync entered reconciliation mode after automatic reconciliation failed. Your workspace remains usable, but publication is paused. Before continuing with the user's task, reconcile `",
            branch,
            "` with the latest `",
            remote_ref,
            "`. After resolving any conflicts, run `resync project sync` to verify the result and leave reconciliation mode. Do not perform unrelated work until synchronization succeeds or reconciliation requires user input.",
        );
        return HookMessages {
            system: Some(message.clone()),
            context: Some(message),
            marker: MarkerChange::Write(branch.to_owned(), remote_ref.to_owned()),
        };
    }
    let remind = match hook_command(input) {
        Some(command) => command_invokes_git(command),
        None => false,
    };
    let context = if remind {
        Some(
            cat3(
                "RepoSync reconciliation mode: prioritize reconciling the latest `",
                remote_ref,
                "` and run `resync project sync` before unrelated work.",
            ),
        )
    } else {
        None
    };
    HookMessages { system: None, context, marker: MarkerChange::Keep }
}

/// Whether the marker is there after a session was told something.
pub open spec fn marker_after(told: bool, change: MarkerChangeView) -> bool {
    match change {
        MarkerChangeView::Keep => told,
        MarkerChangeView::Write(_, _) => true,
        MarkerChangeView::Remove => false,
    }
}

/// A session is told of the start of a conflict exactly once and of its end exactly once: after
/// either, the same state says nothing new to the user.
pub proof fn law_transitions_are_told_once(told: bool, input: Json, later: Json, state: Json)
    ensures
        ({
            let first = messages_for(told, input, state);
            let now = marker_after(told, first.marker);
            let second = messages_for(now, later, state);
            &&& second.system is None
            &&& marker_after(now, second.marker) == now
            &&& now == (json::field(state, "reconciliation_mode"@) == Some(Json::Bool(true)))
        }),
{
}

/// What a hook answers.
#[derive(Debug, Clone, PartialEq, Eq)]
pub struct HookOutput {
    pub system: Option<String>,
    pub context: Option<String>,
}

/// What a [`HookOutput`] holds.
pub struct HookOutputView {
    pub system: Option<Seq<char>>,
    pub context: Option<Seq<char>>,
}

impl View for HookOutput {
    type V = HookOutputView;

    open spec fn view(&self) -> HookOutputView {
        HookOutputView {
            system: text::opt_view(self.system),
            context: text::opt_view(self.context),
        }
    }
}

impl HookOutput {
    /// A second value with the same contents.
    pub fn copy(&self) -> (r: Self)
        ensures
            r@ == self@,
    {
        HookOutput {
            system: copy_option(&self.system),
            context: copy_option(&self.context),
        }
    }
}

/// What a hook answers in one document for several projects: their messages, each marked with its
/// project, on lines of their own.
pub open spec fn marked_messages(
    outputs: Seq<(Seq<char>, HookOutputView)>,
    system: bool,
    n: int,
) -> Seq<Seq<char>>
    decreases n,
{
    if n <= 0 {
        Seq::empty()
    } else {
        let before = marked_messages(outputs, system, n - 1);
        let (id, output) = outputs[n - 1];
        let message = if system {
            output.system
        } else {
            output.context
        };
        match message {
            Some(text) => before.push("["@ + id + "] "@ + text),
            None => before,
        }
    }
}

/// Messages on lines of their own; nothing where there are none.
pub open spec fn on_lines(messages: Seq<Seq<char>>) -> Option<Seq<char>> {
    if messages.len() == 0 {
        None
    } else {
        Some(text::join(messages, "\n"@))
    }
}

/// The contents of a list of answers by project.
pub open spec fn output_views(list: Seq<(String, HookOutput)>) -> Seq<(Seq<char>, HookOutputView)> {
    list.map_values(|p: (String, HookOutput)| (p.0@, p.1@))
}

fn lines_or_none(messages: &Vec<String>) -> (r: Option<String>)
    ensures
        text::opt_view(r) == on_lines(text::views(messages@)),
{
    if messages.len() == 0 {
        None
    } else {
        Some(join_text(messages, "\n"))
    }
}

/// Puts the answers for several projects together.
pub fn merge_workspace_hook_outputs(outputs: &Vec<(String, HookOutput)>) -> (r: HookOutput)
    ensures
        ({
            let all = output_views(outputs@);
            r@ == (HookOutputView {
                system: on_lines(marked_messages(all, true, all.len() as int)),
                context: on_lines(marked_messages(all, false, all.len() as int)),
            })
        }),
{
    let ghost all = output_views(outputs@);
    let mut systems: Vec<String> = Vec::new();
    let mut contexts: Vec<String> = Vec::new();
    let mut i: usize = 0;
    assert(text::views(systems@) =~= Seq::empty());
    assert(text::views(contexts@) =~= Seq::empty());
    while i < outputs.len()
        invariant
            0 <= i <= outputs.len(),
            all == output_views(outputs@),
            text::views(systems@) == marked_messages(all, true, i as int),
            text::views(contexts@) == marked_messages(all, false, i as int),
        decreases outputs.len() - i,
    {
        assert(all[i as int] == (outputs@[i as int].0@, outputs@[i as int].1@));
        let id = outputs[i].0.as_str();
        match &outputs[i].1.system {
            Some(text) => {
                let line = cat4("[", id, "] ", text.as_str());
                let ghost before = systems@;
                let ghost view = line@;
                systems.push(line);
                assert(text::views(systems@) =~= text::views(before).push(view));
            },
            None => {},
        }
        match &outputs[i].1.context {
            Some(text) => {
                let line = cat4("[", id, "] ", text.as_str());
                let ghost before = contexts@;
                let ghost view = line@;
                contexts.push(line);
                assert(text::views(contexts@) =~= text::views(before).push(view));
            },
            None => {},
        }
        i += 1;
    }
    HookOutput { system: lines_or_none(&systems), context: lines_or_none(&contexts) }
}

/// What a hook does.
#[derive(Debug, Clone, Copy, PartialEq, Eq, Structural)]
pub enum HookPlan {
    /// Nothing.
    Nothing,
    /// Tell the session how the project may be used, before or after a synchronization by hand.
    State,
    /// Ask for access.
    Acquire,
    /// Give access back.
    Release,
}

/// What a hook does, by the event that it is called for: nothing is leased around a
/// synchronization by hand, which must be able to own the project.
pub open spec fn plan_for(input: Json) -> HookPlan {
    match json::text_field(input, "hook_event_name"@) {
        Some(name) => if name == "PreToolUse"@ {
            if is_project_sync(input) {
                HookPlan::State
            } else {
                HookPlan::Acquire
            }
        } else if name == "PostToolUse"@ {
            if is_project_sync(input) {
                HookPlan::State
            } else {
                HookPlan::Release
            }
        } else {
            HookPlan::Nothing
        },
        None => HookPlan::Nothing,
    }
}

/// Says what a hook does.
pub fn hook_plan(input: &Json) -> (r: HookPlan)
    ensures
        r == plan_for(*input),
{
    match input.text_at("hook_event_name") {
        Some(name) => {
            if same_text(name, "PreToolUse") {
                if is_project_sync_command(input) {
                    HookPlan::State
                } else {
                    HookPlan::Acquire
                }
            } else if same_text(name, "PostToolUse") {
                if is_project_sync_command(input) {
                    HookPlan::State
                } else {
                    HookPlan::Release
                }
            } else {
                HookPlan::Nothing
            }
        },
        None => HookPlan::Nothing,
    }
}

/// The files of a session.
#[derive(Debug, Clone, PartialEq, Eq)]
pub struct HookFiles {
    pub directory: String,
    /// Where the lease of a call is kept.
    pub lease: String,
    /// Where older versions kept it.
    pub legacy_lease: String,
    /// The marker of a conflict.
    pub marker: String,
}

/// What a [`HookFiles`] holds.
pub struct HookFilesView {
    pub directory: Seq<char>,
    pub lease: Seq<char>,
    pub legacy_lease: Seq<char>,
    pub marker: Seq<char>,
}

impl View for HookFiles {
    type V = HookFilesView;

    open spec fn view(&self) -> HookFilesView {
        HookFilesView {
            directory: self.directory@,
            lease: self.lease@,
            legacy_lease: self.legacy_lease@,
            marker: self.marker@,
        }
    }
}

/// The files of a session: every part of their names is safe.
pub open spec fn files_for(
    state_root: Seq<char>,
    project_id: Seq<char>,
    session: Option<Seq<char>>,
    call: Option<Seq<char>>,
) -> HookFilesView {
    let directory = paths::joined(paths::joined(state_root, "codex-leases"@), safe_part(session));
    HookFilesView {
        directory,
        lease: paths::joined(
            directory,
            safe_part(Some(project_id)) + "-"@ + safe_part(call) + ".json"@,
        ),
        legacy_lease: paths::joined(directory, safe_part(call) + ".json"@),
        marker: paths::joined(
            directory,
            "reconciliation-"@ + safe_part(Some(project_id)) + ".json"@,
        ),
    }
}

/// The files of the session that a hook is called in.
pub fn hook_files(state_root: &str, project_id: &str, input: &Json) -> (r: HookFiles)
    ensures
        r@ == files_for(
            state_root@,
            project_id@,
            json::text_field(*input, "session_id"@),
            json::text_field(*input, "tool_use_id"@),
        ),
{
    let leases = join_path(state_root, "codex-leases");
    let session = safe_hook_part(input.text_at("session_id"));
    let directory = join_path(leases.as_str(), session.as_str());
    let project = safe_hook_part(Some(project_id));
    let call = safe_hook_part(input.text_at("tool_use_id"));
    let lease_name = cat4(project.as_str(), "-", call.as_str(), ".json");
    let legacy_name = cat2(call.as_str(), ".json");
    let lease = join_path(directory.as_str(), lease_name.as_str());
    let legacy_lease = join_path(directory.as_str(), legacy_name.as_str());
    let marker = reconciliation_marker(directory.as_str(), project_id);
    HookFiles { directory, lease, legacy_lease, marker }
}

/// What a hook does with the reply of the daemon.
#[derive(Debug, Clone, PartialEq, Eq)]
pub struct HookEffect {
    /// The lease to keep for the end of the call.
    pub lease: Option<String>,
    pub marker: MarkerChange,
    pub output: HookOutput,
}

/// What a [`HookEffect`] holds.
pub struct HookEffectView {
    pub lease: Option<Seq<char>>,
    pub marker: MarkerChangeView,
    pub output: HookOutputView,
}

impl View for HookEffect {
    type V = HookEffectView;

    open spec fn view(&self) -> HookEffectView {
        HookEffectView {
            lease: text::opt_view(self.lease),
            marker: self.marker@,
            output: self.output@,
        }
    }
}

/// What a hook says where the daemon cannot be asked; the tool is used all the same.
pub open spec fn unavailable_text(plan: HookPlan, before: bool, error: Seq<char>) -> Option<
    Seq<char>,
> {
    match (plan, before) {
        (HookPlan::State, true) => Some(
            "RepoSync state is unavailable; the tool call will continue: "@ + error,
        ),
        (HookPlan::State, false) => Some(
            "RepoSync could not verify reconciliation state: "@ + error,
        ),
        (HookPlan::Acquire, _) => Some(
            "RepoSync access coordination is unavailable; the tool call will continue: "@ + error,
        ),
        (HookPlan::Release, _) => Some("RepoSync could not release the tool lease: "@ + error),
        (HookPlan::Nothing, _) => None,
    }
}

/// A hook that only says something, or nothing.
pub open spec fn only_says(system: Option<Seq<char>>) -> HookEffectView {
    HookEffectView {
        lease: None,
        marker: MarkerChangeView::Keep,
        output: HookOutputView { system, context: None },
    }
}

/// What a hook does with the reply of the daemon, given whether the session was told of a conflict
/// before.
pub open spec fn effect_of(
    input: Json,
    told: bool,
    reply: Result<Json, Seq<char>>,
) -> HookEffectView {
    let plan = plan_for(input);
    match reply {
        Err(error) => only_says(
            unavailable_text(
                plan,
                json::text_field(input, "hook_event_name"@) == Some("PreToolUse"@),
                error,
            ),
        ),
        Ok(result) => match plan {
            HookPlan::State => {
                let messages = messages_for(told, input, result);
                HookEffectView {
                    lease: None,
                    marker: messages.marker,
                    output: HookOutputView { system: messages.system, context: messages.context },
                }
            },
            HookPlan::Acquire => {
                let messages = messages_for(told, input, result);
                HookEffectView {
                    lease: json::text_field(result, "lease_id"@),
                    marker: messages.marker,
                    output: HookOutputView {
                        system: messages.system,
                        context: match messages.context {
                            Some(text) => Some(text),
                            None => json::text_field(result, "model_message"@),
                        },
                    },
                }
            },
            _ => only_says(None),
        },
    }
}

fn unavailable(plan: HookPlan, before: bool, error: &str) -> (r: Option<String>)
    ensures
        text::opt_view(r) == unavailable_text(plan, before, error@),
{
    match (plan, before) {
        (HookPlan::State, true) => Some(
            cat2("RepoSync state is unavailable; the tool call will continue: ", error),
        ),
        (HookPlan::State, false) => Some(
            cat2("RepoSync could not verify reconciliation state: ", error),
        ),
        (HookPlan::Acquire, _) => Some(
            cat2(
                "RepoSync access coordination is unavailable; the tool call will continue: ",
                error,
            ),
        ),
        (HookPlan::Release, _) => Some(cat2("RepoSync could not release the tool lease: ", error)),
        (HookPlan::Nothing, _) => None,
    }
}

fn owned(text: Option<&str>) -> (r: Option<String>)
    ensures
        text::opt_view(r) == peer::str_view(text),
{
    match text {
        Some(inner) => Some(inner.to_owned()),
        None => None,
    }
}

/// Says what a hook does with the reply of the daemon.
pub fn codex_hook_for_input(input: &Json, told: bool, reply: &Result<Json, String>) -> (r: HookEffect)
    ensures
        r@ == effect_of(
            *input,
            told,
            match *reply {
                Ok(result) => Ok(result),
                Err(error) => Err(error@),
            },
        ),
{
    let plan = hook_plan(input);
    let result = match reply {
        Ok(result) => result,
        Err(error) => {
            let before = match input.text_at("hook_event_name") {
                Some(name) => same_text(name, "PreToolUse"),
                None => false,
            };
            return HookEffect {
                lease: None,
                marker: MarkerChange::Keep,
                output: HookOutput {
                    system: unavailable(plan, before, error.as_str()),
                    context: None,
                },
            };
        },
    };
    match plan {
        HookPlan::State => {
            let messages = reconciliation_messages(told, input, result);
            HookEffect {
                lease: None,
                marker: messages.marker,
                output: HookOutput { system: messages.system, context: messages.context },
            }
        },
        HookPlan::Acquire => {
            let messages = reconciliation_messages(told, input, result);
            let context = match messages.context {
                Some(text) => Some(text),
                None => owned(result.text_at("model_message")),
            };
            HookEffect {
                lease: owned(result.text_at("lease_id")),
                marker: messages.marker,
                output: HookOutput { system: messages.system, context },
            }
        },
        _ => HookEffect {
            lease: None,
            marker: MarkerChange::Keep,
            output: HookOutput { system: None, context: None },
        },
    }
}

/// A tool is never kept from being used: whatever the daemon replies, a hook answers, and a
/// failure becomes words for the user alone.
pub proof fn law_failures_are_only_told(input: Json, told: bool, error: Seq<char>)
    ensures
        ({
            let effect = effect_of(input, told, Err(error));
            &&& effect.lease is None
            &&& effect.marker == MarkerChangeView::Keep
            &&& effect.output.context is None
            &&& effect.output.system is Some <==> plan_for(input) != HookPlan::Nothing
        }),
{
}

/// The document that a hook answers with, for an event.
pub open spec fn rendered(event: Seq<char>, output: HookOutputView) -> JsonView {
    let empty = JsonView::Object(Seq::empty());
    let with_system = match output.system {
        Some(text) => hooks::with_member(empty, "systemMessage"@, JsonView::Text(text)),
        None => empty,
    };
    match output.context {
        Some(text) => hooks::with_member(
            with_system,
            "hookSpecificOutput"@,
            JsonView::Object(
                seq![
                    ("hookEventName"@, JsonView::Text(event)),
                    ("additionalContext"@, JsonView::Text(text)),
                ],
            ),
        ),
        None => with_system,
    }
}

/// Writes the document that a hook answers with.
pub fn hook_output(event: &str, output: &HookOutput) -> (r: Json)
    ensures
        r@ == rendered(event@, output@),
{
    let none: Vec<(String, Json)> = Vec::new();
    let empty = make_object(none);
    assert(empty@ == JsonView::Object(Seq::empty())) by {
        assert(json::field_views(none@) =~= Seq::empty());
    }
    let with_system = match &output.system {
        Some(text) => set_member(empty, "systemMessage", Json::Text(text.clone())),
        None => empty,
    };
    match &output.context {
        Some(text) => {
            let inner = vec![
                text_pair("hookEventName", event),
                text_pair("additionalContext", text.as_str()),
            ];
            assert(json::field_views(inner@) =~= seq![
                ("hookEventName"@, JsonView::Text(event@)),
                ("additionalContext"@, JsonView::Text(text@)),
            ]);
            set_member(with_system, "hookSpecificOutput", make_object(inner))
        },
        None => with_system,
    }
}

/// What is said where the hook of one project of a workspace fails; the tool is used all the same.
pub open spec fn workspace_failure_text(reason: Seq<char>) -> Seq<char> {
    "RepoSync workspace coordination failed; the tool call will continue: "@ + reason
}

/// What is answered where the hook of one project of a workspace fails.
pub fn workspace_failure(reason: &str) -> (r: HookOutput)
    ensures
        r@ == (HookOutputView { system: Some(workspace_failure_text(reason@)), context: None }),
{
    HookOutput {
        system: Some(
            cat2("RepoSync workspace coordination failed; the tool call will continue: ", reason),
        ),
        context: None,
    }
}

/// The order in which the projects of a workspace are gone through: as they are declared, or from
/// the last to the first where access is given back.
pub fn hook_order(event_name: &str, ids: &Vec<String>) -> (r: Vec<String>)
    ensures
        text::views(r@) == if event_name@ == "PostToolUse"@ {
            text::views(ids@).reverse()
        } else {
            text::views(ids@)
        },
{
    if !same_text(event_name, "PostToolUse") {
        return copy_list(ids);
    }
    let mut r: Vec<String> = Vec::new();
    let mut i: usize = ids.len();
    while i > 0
        invariant
            0 <= i <= ids.len(),
            r.len() == ids.len() - i,
            forall|j: int| 0 <= j < r.len() ==> (#[trigger] r@[j])@ == ids@[ids.len() - 1 - j]@,
        decreases i,
    {
        i -= 1;
        r.push(ids[i].clone());
    }
    assert(text::views(r@) =~= text::views(ids@).reverse());
    r
}

/// Giving access back goes through the projects in the opposite order of getting it.
pub proof fn law_access_is_given_back_in_reverse(ids: Seq<Seq<char>>, i: int)
    requires
        0 <= i < ids.len(),
    ensures
        ids.reverse().len() == ids.len(),
        ids.reverse()[i] == ids[ids.len() - 1 - i],
        ids.reverse().reverse() == ids,
{
    assert(ids.reverse().reverse() =~= ids);
}

/// The most bytes of what a hook is told.
pub const HOOK_INPUT_LIMIT: usize = 1048576;

/// Whether what a hook is told is too long.
pub fn hook_input_too_long(source: &str) -> (r: bool)
    ensures
        r == (vstd::utf8::encode_utf8(source@).len() > HOOK_INPUT_LIMIT),
{
    source.as_bytes().len() > HOOK_INPUT_LIMIT
}

/// Whether a pattern stands on a line of its own.
pub open spec fn has_pattern(contents: Seq<char>, pattern: Seq<char>) -> bool {
    exists|i: int| 0 <= i < text::lines(contents).len() && text::trim(#[trigger] text::lines(contents)[i]) == pattern
}

/// A list of patterns with one more, on a line of its own.
pub open spec fn with_pattern(contents: Seq<char>, pattern: Seq<char>) -> Seq<char> {
    if has_pattern(contents, pattern) {
        contents
    } else if contents.len() > 0 && contents.last() != '\n' {
        contents.push('\n') + pattern + "\n"@
    } else {
        contents + pattern + "\n"@
    }
}

/// A list of patterns with the first `n` of some more.
pub open spec fn with_patterns(contents: Seq<char>, patterns: Seq<Seq<char>>, n: int) -> Seq<char>
    decreases n,
{
    if n <= 0 {
        contents
    } else {
        with_pattern(with_patterns(contents, patterns, n - 1), patterns[n - 1])
    }
}

fn pattern_there(contents: &str, pattern: &str) -> (r: bool)
    ensures
        r == has_pattern(contents@, pattern@),
{
    let list = lines_of(contents);
    let ghost all = text::lines(contents@);
    let mut i: usize = 0;
    while i < list.len()
        invariant
            0 <= i <= list.len(),
            all == text::views(list@),
            all == text::lines(contents@),
            forall|j: int| 0 <= j < i ==> text::trim(#[trigger] all[j]) != pattern@,
        decreases list.len() - i,
    {
        assert(all[i as int] == list@[i as int]@);
        let line = trimmed(list[i].as_str());
        if same_text(line.as_str(), pattern) {
            assert(text::trim(text::lines(contents@)[i as int]) == pattern@);
            return true;
        }
        i += 1;
    }
    false
}

/// The list of the files that Git ignores, with some more; nothing where all of them are in it.
pub fn ensure_local_excludes(contents: &str, patterns: &Vec<String>) -> (r: Option<String>)
    ensures
        ({
            let now = with_patterns(contents@, text::views(patterns@), patterns@.len() as int);
            match r {
                Some(text) => text@ == now && exists|i: int|
                    0 <= i < patterns@.len() && !has_pattern(
                        with_patterns(contents@, text::views(patterns@), i),
                        (#[trigger] patterns@[i])@,
                    ),
                None => now == contents@,
            }
        }),
{
    let mut now = contents.to_owned();
    let mut changed = false;
    let ghost all = text::views(patterns@);
    let mut i: usize = 0;
    while i < patterns.len()
        invariant
            0 <= i <= patterns.len(),
            all == text::views(patterns@),
            now@ == with_patterns(contents@, all, i as int),
            !changed ==> now@ == contents@,
            changed ==> exists|j: int|
                0 <= j < i && !has_pattern(
                    with_patterns(contents@, all, j),
                    (#[trigger] patterns@[j])@,
                ),
        decreases patterns.len() - i,
    {
        assert(all[i as int] == patterns@[i as int]@);
        let pattern = patterns[i].as_str();
        if !pattern_there(now.as_str(), pattern) {
            let c = chars_of(now.as_str());
            let ghost before = now@;
            assert(!has_pattern(with_patterns(contents@, all, i as int), patterns@[i as int]@));
            if c.len() > 0 && c[c.len() - 1] != '\n' {
                now.push('\n');
            }
            now.append(pattern);
            now.append("\n");
            changed = true;
            assert(now@ =~= with_pattern(before, pattern@));
        }
        i += 1;
    }
    if changed {
        Some(now)
    } else {
        None
    }
}

/// The hook that tells the daemon of a commit.
pub open spec fn commit_hook(executable: Seq<char>, project_id: Seq<char>) -> Seq<char> {
    "#!/bin/sh\n# RepoSync dispatcher\nset -u\n[ ! -x \"$0.pre-resync\" ] || \"$0.pre-resync\" \"$@\"\ncommit=\"$(git rev-parse HEAD 2>/dev/null)\" || exit 0\nbranch=\"$(git symbolic-ref --short HEAD 2>/dev/null)\" || exit 0\n"@
        + shell::quoted_word(executable) + " report-commit "@ + shell::quoted_word(project_id)
        + " \"$commit\" \"$branch\" >/dev/null || echo \"RepoSync could not schedule automatic publication\" >&2\n"@
}

/// The hook that tells the daemon of a change of branch.
pub open spec fn checkout_hook(executable: Seq<char>, project_id: Seq<char>) -> Seq<char> {
    "#!/bin/sh\n# RepoSync dispatcher\nset -u\n[ ! -x \"$0.pre-resync\" ] || \"$0.pre-resync\" \"$@\"\nnew_branch=\"$(git symbolic-ref --short HEAD 2>/dev/null)\" || exit 0\n"@
        + shell::quoted_word(executable) + " report-checkout "@ + shell::quoted_word(project_id)
        + " \"$1\" \"$2\" \"$new_branch\" >/dev/null || echo \"RepoSync could not record branch transition\" >&2\n"@
}

/// Whether a hook of Git is one of this program; another one is kept under another name.
pub fn is_own_hook(contents: &str) -> (r: bool)
    ensures
        r == text::has_part(contents@, "# RepoSync dispatcher"@),
{
    contains_text(contents, "# RepoSync dispatcher")
}

/// Everything that makes tools and Git work with a checkout.
#[derive(Debug)]
pub struct AdapterPlan {
    /// The directory and the file of the hooks of tools.
    pub codex_directory: String,
    pub hooks_path: String,
    pub dispatcher: Dispatcher,
    /// The document of the hooks, after the repair.
    pub hooks: Json,
    /// The skill that explains the program.
    pub skill_path: String,
    pub skill_metadata_path: String,
    /// The files that Git is told to ignore.
    pub excludes: Vec<String>,
    /// The hooks of Git.
    pub post_commit: String,
    pub post_checkout: String,
}

/// The file of the hooks of tools in a directory.
pub fn hooks_path(directory: &str) -> (r: String)
    ensures
        r@ == paths::joined(paths::joined(directory@, ".codex"@), "hooks.json"@),
{
    let codex = join_path(directory, ".codex");
    join_path(codex.as_str(), "hooks.json")
}

/// Plans what makes tools and Git work with the checkout of a project; `document` is what its hooks
/// are now.
pub fn install_project_adapters_in_state(
    project: &LocalProject,
    state_root: &str,
    executable: &str,
    document: Json,
) -> (r: AdapterPlan)
    requires
        hooks::is_hook_document(document@),
    ensures
        ({
            let p = project@;
            let skill = paths::joined(paths::joined(paths::joined(p.local_path, ".agents"@), "skills"@), "reposync"@);
            &&& r.codex_directory@ == paths::joined(p.local_path, ".codex"@)
            &&& r.hooks_path@ == paths::joined(paths::joined(p.local_path, ".codex"@), "hooks.json"@)
            &&& r.dispatcher@ == hook_dispatcher::project_dispatcher(state_root@, p.project_id)
            &&& r.hooks@ == hooks::repaired(
                document@,
                shell::quoted_word(r.dispatcher@.path),
                HookKind::Project,
            )
            &&& r.skill_path@ == paths::joined(skill, "SKILL.md"@)
            &&& r.skill_metadata_path@ == paths::joined(paths::joined(skill, "agents"@), "openai.yaml"@)
            &&& text::views(r.excludes@) == seq!["/.codex/hooks.json"@, "/.agents/skills/reposync/"@]
            &&& r.post_commit@ == commit_hook(executable@, p.project_id)
            &&& r.post_checkout@ == checkout_hook(executable@, p.project_id)
        }),
{
    let path = project.local_path.as_str();
    let codex_directory = join_path(path, ".codex");
    let hooks_file = hooks_path(path);
    let dispatcher = ensure_project_dispatcher(state_root, project.project_id.as_str());
    let marker = shell_quote(dispatcher.path.as_str());
    let hooks = repair_hooks(document, marker.as_str(), HookKind::Project);
    let agents = join_path(path, ".agents");
    let skills = join_path(agents.as_str(), "skills");
    let skill = join_path(skills.as_str(), "reposync");
    let skill_path = join_path(skill.as_str(), "SKILL.md");
    let metadata = join_path(skill.as_str(), "agents");
    let skill_metadata_path = join_path(metadata.as_str(), "openai.yaml");
    let program = shell_quote(executable);
    let id = shell_quote(project.project_id.as_str());
    let post_commit = cat5(
        "#!/bin/sh\n# RepoSync dispatcher\nset -u\n[ ! -x \"$0.pre-resync\" ] || \"$0.pre-resync\" \"$@\"\ncommit=\"$(git rev-parse HEAD 2>/dev/null)\" || exit 0\nbranch=\"$(git symbolic-ref --short HEAD 2>/dev/null)\" || exit 0\n",
        program.as_str(),
        " report-commit ",
        id.as_str(),
        " \"$commit\" \"$branch\" >/dev/null || echo \"RepoSync could not schedule automatic publication\" >&2\n",
    );
    let post_checkout = cat5(
        "#!/bin/sh\n# RepoSync dispatcher\nset -u\n[ ! -x \"$0.pre-resync\" ] || \"$0.pre-resync\" \"$@\"\nnew_branch=\"$(git symbolic-ref --short HEAD 2>/dev/null)\" || exit 0\n",
        program.as_str(),
        " report-checkout ",
        id.as_str(),
        " \"$1\" \"$2\" \"$new_branch\" >/dev/null || echo \"RepoSync could not record branch transition\" >&2\n",
    );
    AdapterPlan {
        codex_directory,
        hooks_path: hooks_file,
        dispatcher,
        hooks,
        skill_path,
        skill_metadata_path,
        excludes: words2("/.codex/hooks.json", "/.agents/skills/reposync/"),
        post_commit,
        post_checkout,
    }
}

/// Everything that makes tools work with the projects of a workspace.
#[derive(Debug)]
pub struct WorkspacePlan {
    pub codex_directory: String,
    pub hooks_path: String,
    pub dispatcher: Dispatcher,
    /// The document of the hooks, after the repair.
    pub hooks: Json,
}

/// Plans what makes tools work with the projects of a workspace; `document` is what its hooks are
/// now.
pub fn install_hooks(workspace: &Workspace, state_root: &str, document: Json) -> (r: WorkspacePlan)
    requires
        hooks::is_hook_document(document@),
    ensures
        r.codex_directory@ == paths::joined(workspace.root@, ".codex"@),
        r.hooks_path@ == paths::joined(paths::joined(workspace.root@, ".codex"@), "hooks.json"@),
        r.dispatcher@ == hook_dispatcher::workspace_dispatcher(state_root@, workspace.manifest_path@),
        r.hooks@ == hooks::repaired(document@, shell::quoted_word(r.dispatcher@.path), HookKind::Workspace),
{
    let root = workspace.root.as_str();
    let dispatcher = ensure_workspace_dispatcher(state_root, workspace.manifest_path.as_str());
    let marker = shell_quote(dispatcher.path.as_str());
    let hooks = repair_hooks(document, marker.as_str(), HookKind::Workspace);
    WorkspacePlan {
        codex_directory: join_path(root, ".codex"),
        hooks_path: hooks_path(root),
        dispatcher,
        hooks,
    }
}

/// Whether a user has to look at the hooks again: they are new, or they have changed.
pub open spec fn needs_review(existed: bool, changed: bool) -> bool {
    !existed || changed
}

/// Whether a user has to look at the hooks again.
pub fn requires_review(existed: bool, changed: bool) -> (r: bool)
    ensures
        r == needs_review(existed, changed),
{
    !existed || changed
}

/// The command by which tools reach a project.
pub open spec fn project_marker(state_root: Seq<char>, project_id: Seq<char>) -> Seq<char> {
    shell::quoted_word(hook_dispatcher::project_dispatcher(state_root, project_id).path)
}

/// Installing the adapters of a project leaves, for each of the two events, exactly one handler that
/// runs its dispatcher and no older hook of this program, and keeps the handlers of the user as they
/// are, in order. Installing them again leaves the hooks as they are, so that nobody has to look at
/// them again.
pub proof fn law_adapters_are_installed_once(
    state_root: Seq<char>,
    project_id: Seq<char>,
    document: JsonView,
)
    requires
        hooks::is_hook_document(document),
    ensures
        ({
            let marker = project_marker(state_root, project_id);
            let first = hooks::repaired(document, marker, HookKind::Project);
            let second = hooks::repaired(first, marker, HookKind::Project);
            let was = hooks::events_of(document);
            let now = hooks::events_of(first);
            &&& hooks::is_settled(
                hooks::groups_of(now, "PreToolUse"@),
                hooks::groups_of(was, "PreToolUse"@),
                marker,
                HookKind::Project,
            )
            &&& hooks::is_settled(
                hooks::groups_of(now, "PostToolUse"@),
                hooks::groups_of(was, "PostToolUse"@),
                marker,
                HookKind::Project,
            )
            &&& hooks::is_hook_document(first)
            &&& second == first
            &&& !needs_review(true, second != first)
        }),
{
    let marker = project_marker(state_root, project_id);
    let events = hooks::repaired_events(hooks::events_of(document), marker, HookKind::Project);
    hooks::law_installation_settles(document, marker, HookKind::Project);
    hooks::lemma_member_set(document, "hooks"@, events);
}

} // verus!
