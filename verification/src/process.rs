//! Commands to run, and what their results mean.
use vstd::prelude::*;
use crate::text;
use crate::text::{cat5, is_blank, join_text, trimmed};

verus! {

/// The outcome of a finished process.
#[derive(Debug, Clone, PartialEq, Eq)]
pub struct RunResult {
    pub code: i32,
    pub stdout: String,
    pub stderr: String,
}

/// What a [`RunResult`] holds.
pub struct RunResultView {
    pub code: i32,
    pub stdout: Seq<char>,
    pub stderr: Seq<char>,
}

impl View for RunResult {
    type V = RunResultView;

    open spec fn view(&self) -> RunResultView {
        RunResultView {
            code: self.code,
            stdout: self.stdout@,
            stderr: self.stderr@,
        }
    }
}

impl RunResult {
    /// A second value with the same contents.
    pub fn copy(&self) -> (r: Self)
        ensures
            r@ == self@,
    {
        RunResult {
            code: self.code,
            stdout: self.stdout.clone(),
            stderr: self.stderr.clone(),
        }
    }
}

/// Settings of a process beside its program and arguments.
#[derive(Debug, Clone, PartialEq, Eq)]
pub struct RunOptions {
    pub cwd: Option<String>,
    /// Environment variables to set, later ones overriding earlier ones.
    pub env: Vec<(String, String)>,
    pub input: Option<String>,
    pub allow_failure: bool,
}

/// What [`RunOptions`] hold.
pub struct RunOptionsView {
    pub cwd: Option<Seq<char>>,
    pub env: Seq<(Seq<char>, Seq<char>)>,
    pub input: Option<Seq<char>>,
    pub allow_failure: bool,
}

/// The contents of a list of pairs of texts.
pub open spec fn pairs(list: Seq<(String, String)>) -> Seq<(Seq<char>, Seq<char>)> {
    list.map_values(|p: (String, String)| (p.0@, p.1@))
}

impl View for RunOptions {
    type V = RunOptionsView;

    open spec fn view(&self) -> RunOptionsView {
        RunOptionsView {
            cwd: text::opt_view(self.cwd),
            env: pairs(self.env@),
            input: text::opt_view(self.input),
            allow_failure: self.allow_failure,
        }
    }
}

impl Default for RunOptions {
    fn default() -> (r: Self)
        ensures
            r@ == plain_options(),
    {
        let r = RunOptions { cwd: None, env: Vec::new(), input: None, allow_failure: false };
        assert(pairs(r.env@) =~= Seq::empty());
        r
    }
}

/// No directory, environment or input, and a failure is an error.
pub open spec fn plain_options() -> RunOptionsView {
    RunOptionsView { cwd: None, env: Seq::empty(), input: None, allow_failure: false }
}

/// One run of Git.
#[derive(Debug, Clone, PartialEq, Eq)]
pub struct GitCall {
    pub args: Vec<String>,
    pub options: RunOptions,
}

/// What a [`GitCall`] holds.
pub struct GitCallView {
    pub args: Seq<Seq<char>>,
    pub options: RunOptionsView,
}

impl View for GitCall {
    type V = GitCallView;

    open spec fn view(&self) -> GitCallView {
        GitCallView { args: text::views(self.args@), options: self.options@ }
    }
}

/// Git in `cwd` with `args`, where a failure is an error.
pub open spec fn git_in(cwd: Seq<char>, args: Seq<Seq<char>>) -> GitCallView {
    GitCallView { args, options: (RunOptionsView { cwd: Some(cwd), ..plain_options() }) }
}

/// Git in `cwd` with `args`, whatever its exit code.
pub open spec fn git_try(cwd: Seq<char>, args: Seq<Seq<char>>) -> GitCallView {
    GitCallView {
        args,
        options: (RunOptionsView { cwd: Some(cwd), allow_failure: true, ..plain_options() }),
    }
}

/// A run of Git in `cwd` that must succeed, with no input and the environment as it is.
pub open spec fn must_run(cwd: Seq<char>, args: Seq<Seq<char>>) -> GitCallView {
    GitCallView {
        args,
        options: (RunOptionsView {
            cwd: Some(cwd),
            env: Seq::empty(),
            input: None,
            allow_failure: false,
        }),
    }
}

/// A run of Git in `cwd` whose exit code is its answer, with no input and the environment as it
/// is.
pub open spec fn may_fail(cwd: Seq<char>, args: Seq<Seq<char>>) -> GitCallView {
    GitCallView {
        args,
        options: (RunOptionsView {
            cwd: Some(cwd),
            env: Seq::empty(),
            input: None,
            allow_failure: true,
        }),
    }
}

/// Git in a directory, with the directory of `options` replaced by it.
pub fn git(cwd: &str, args: Vec<String>, options: RunOptions) -> (r: GitCall)
    ensures
        r@ == (GitCallView {
            args: text::views(args@),
            options: (RunOptionsView { cwd: Some(cwd@), ..options@ }),
        }),
{
    GitCall {
        args,
        options: RunOptions {
            cwd: Some(cwd.to_owned()),
            env: options.env,
            input: options.input,
            allow_failure: options.allow_failure,
        },
    }
}

/// Git in a directory, where a failure is an error.
pub fn git_strict(cwd: &str, args: Vec<String>) -> (r: GitCall)
    ensures
        r@ == git_in(cwd@, text::views(args@)),
{
    git(cwd, args, RunOptions::default())
}

/// Git in a directory, whatever its exit code.
pub fn git_lenient(cwd: &str, args: Vec<String>) -> (r: GitCall)
    ensures
        r@ == git_try(cwd@, text::views(args@)),
{
    let mut options = RunOptions::default();
    options.allow_failure = true;
    git(cwd, args, options)
}

/// The text that explains a failed process: its errors, else its output, else a fixed phrase.
pub open spec fn failure_detail(result: RunResultView) -> Seq<char> {
    if text::trim(result.stderr).len() > 0 {
        text::trim(result.stderr)
    } else if text::trim(result.stdout).len() > 0 {
        text::trim(result.stdout)
    } else {
        "process exited unsuccessfully"@
    }
}

/// The message for a failed process.
pub open spec fn failure_message(
    program: Seq<char>,
    args: Seq<Seq<char>>,
    result: RunResultView,
) -> Seq<char> {
    program + " "@ + text::join(args, " "@) + " failed: "@ + failure_detail(result)
}

/// What a run gives: its result, or the message for an exit code other than zero that is not
/// allowed.
pub fn run(program: &str, args: &Vec<String>, allow_failure: bool, result: RunResult) -> (r: Result<
    RunResult,
    String,
>)
    ensures
        match r {
            Ok(same) => same == result && (result.code == 0 || allow_failure),
            Err(message) => result.code != 0 && !allow_failure && message@ == failure_message(
                program@,
                text::views(args@),
                result@,
            ),
        },
{
    if result.code != 0 && !allow_failure {
        let errors = trimmed(result.stderr.as_str());
        let output = trimmed(result.stdout.as_str());
        let detail = if !is_blank(errors.as_str()) {
            errors
        } else if !is_blank(output.as_str()) {
            output
        } else {
            "process exited unsuccessfully".to_owned()
        };
        let words = join_text(args, " ");
        return Err(cat5(program, " ", words.as_str(), " failed: ", detail.as_str()));
    }
    Ok(result)
}

/// The next command of a program that Git runs drive, or what the program gives.
#[derive(Debug)]
pub enum Next<T> {
    Run(GitCall),
    Done(T),
}

/// 1 word as arguments.
pub fn words1(a: &str) -> (r: Vec<String>)
    ensures
        text::views(r@) == seq![a@],
{
    let r = vec![a.to_owned()];
    assert(text::views(r@) =~= seq![a@]);
    r
}

/// 2 words as arguments.
pub fn words2(a: &str, b: &str) -> (r: Vec<String>)
    ensures
        text::views(r@) == seq![a@, b@],
{
    let r = vec![a.to_owned(), b.to_owned()];
    assert(text::views(r@) =~= seq![a@, b@]);
    r
}

/// 3 words as arguments.
pub fn words3(a: &str, b: &str, c: &str) -> (r: Vec<String>)
    ensures
        text::views(r@) == seq![a@, b@, c@],
{
    let r = vec![a.to_owned(), b.to_owned(), c.to_owned()];
    assert(text::views(r@) =~= seq![a@, b@, c@]);
    r
}

/// 4 words as arguments.
pub fn words4(a: &str, b: &str, c: &str, d: &str) -> (r: Vec<String>)
    ensures
        text::views(r@) == seq![a@, b@, c@, d@],
{
    let r = vec![a.to_owned(), b.to_owned(), c.to_owned(), d.to_owned()];
    assert(text::views(r@) =~= seq![a@, b@, c@, d@]);
    r
}

/// 5 words as arguments.
pub fn words5(a: &str, b: &str, c: &str, d: &str, e: &str) -> (r: Vec<String>)
    ensures
        text::views(r@) == seq![a@, b@, c@, d@, e@],
{
    let r = vec![a.to_owned(), b.to_owned(), c.to_owned(), d.to_owned(), e.to_owned()];
    assert(text::views(r@) =~= seq![a@, b@, c@, d@, e@]);
    r
}

/// 7 words as arguments.
pub fn words7(a: &str, b: &str, c: &str, d: &str, e: &str, f: &str, g: &str) -> (r: Vec<String>)
    ensures
        text::views(r@) == seq![a@, b@, c@, d@, e@, f@, g@],
{
    let r = vec![a.to_owned(), b.to_owned(), c.to_owned(), d.to_owned(), e.to_owned(), f.to_owned(), g.to_owned()];
    assert(text::views(r@) =~= seq![a@, b@, c@, d@, e@, f@, g@]);
    r
}

/// 8 words as arguments.
pub fn words8(a: &str, b: &str, c: &str, d: &str, e: &str, f: &str, g: &str, h: &str) -> (r: Vec<String>)
    ensures
        text::views(r@) == seq![a@, b@, c@, d@, e@, f@, g@, h@],
{
    let r = vec![a.to_owned(), b.to_owned(), c.to_owned(), d.to_owned(), e.to_owned(), f.to_owned(), g.to_owned(), h.to_owned()];
    assert(text::views(r@) =~= seq![a@, b@, c@, d@, e@, f@, g@, h@]);
    r
}

} // verus!
