//! Talking to the remote of a project through Git and through the provider.
use vstd::prelude::*;
use crate::address;
use crate::digest;
use crate::git_state;
use crate::json;
use crate::process;
use crate::protocol;
use crate::provider;
use crate::state;
use crate::text;
use crate::text_map;
use crate::address::join_url;
use crate::digest::base64_standard;
use crate::json::Json;
use crate::process::{
    git, git_lenient, git_strict, words3, words4, words5, GitCall, GitCallView, Next, RunOptions,
    RunOptionsView, RunResult, RunResultView,
};
use crate::protocol::{Catalog, CatalogProjectView, ProtocolError};
use crate::state::{Config, ConfigView, LocalProject};
use crate::text::{
    cat2, cat3, cat4, cat5, chars_of, contains_text, copy_option, decimal_text, head_text, is_blank,
    lines_of, lowercase, part_of, same_text, strip_prefix_text, trimmed,
};
use crate::text_map::{put_text, TextMap};

verus! {

/// The environment that lets Git authenticate with a token.
pub open spec fn token_env(token: Option<Seq<char>>) -> Seq<(Seq<char>, Seq<char>)> {
    match token {
        None => Seq::empty(),
        Some(token) => seq![
            ("GIT_CONFIG_COUNT"@, "1"@),
            ("GIT_CONFIG_KEY_0"@, "http.extraHeader"@),
            (
                "GIT_CONFIG_VALUE_0"@,
                "Authorization: Basic "@ + digest::base64_text(
                    vstd::utf8::encode_utf8("resync:"@ + token),
                ),
            ),
        ],
    }
}

/// The environment that lets Git authenticate; none without a token.
pub fn authorization_env(token: &Option<String>) -> (r: Vec<(String, String)>)
    ensures
        process::pairs(r@) == token_env(text::opt_view(*token)),
{
    match token {
        None => {
            let r: Vec<(String, String)> = Vec::new();
            assert(process::pairs(r@) =~= Seq::empty());
            r
        },
        Some(token) => {
            let user = cat2("resync:", token.as_str());
            let code = base64_standard(user.as_str().as_bytes());
            let header = cat2("Authorization: Basic ", code.as_str());
            let r = vec![
                ("GIT_CONFIG_COUNT".to_owned(), "1".to_owned()),
                ("GIT_CONFIG_KEY_0".to_owned(), "http.extraHeader".to_owned()),
                ("GIT_CONFIG_VALUE_0".to_owned(), header),
            ];
            assert(process::pairs(r@) =~= token_env(Some(token@)));
            r
        },
    }
}

/// Git in a directory with a token.
pub open spec fn git_with_token(
    cwd: Seq<char>,
    args: Seq<Seq<char>>,
    token: Option<Seq<char>>,
    allow_failure: bool,
) -> GitCallView {
    GitCallView {
        args,
        options: (RunOptionsView {
            cwd: Some(cwd),
            env: token_env(token),
            input: None,
            allow_failure,
        }),
    }
}

/// Git in a directory with a token.
pub fn git_authorized(
    cwd: &str,
    args: Vec<String>,
    token: &Option<String>,
    allow_failure: bool,
) -> (r: GitCall)
    ensures
        r@ == git_with_token(cwd@, text::views(args@), text::opt_view(*token), allow_failure),
{
    let env = authorization_env(token);
    git(cwd, args, RunOptions { cwd: None, env, input: None, allow_failure })
}

/// The configuration with the active provider as its server and the credential for it, if one was
/// found.
pub open spec fn resolved(config: ConfigView, credential: Option<Seq<char>>) -> ConfigView {
    ConfigView {
        server: config.active_provider,
        token: if credential is Some {
            credential
        } else {
            config.token
        },
        ..config
    }
}

/// Completes a configuration with the credential for its active provider.
pub fn resolved_config(config: Config, credential: Option<String>) -> (r: Config)
    ensures
        r@ == resolved(config@, text::opt_view(credential)),
{
    let mut now = config;
    now.server = copy_option(&now.active_provider);
    if credential.is_some() {
        now.token = credential;
    }
    now
}

/// Why the remote could not be used.
#[derive(Debug, Clone, PartialEq, Eq)]
pub enum RemoteError {
    /// No login.
    NotLoggedIn,
    /// The server is no URL.
    Address(String),
    /// The catalog request was answered with this status and this text.
    CatalogStatus(u16, String),
    /// The catalog is not accepted.
    Catalog(ProtocolError),
    /// Git could not fetch, for the reason given.
    Fetch(String),
}

/// What a [`RemoteError`] says.
pub open spec fn remote_text(e: RemoteError) -> Seq<char> {
    match e {
        RemoteError::NotLoggedIn => "run `resync login SERVER TOKEN` first"@,
        RemoteError::Address(url) => "invalid server URL "@ + url@,
        RemoteError::CatalogStatus(status, text) => "catalog request failed ("@ + text::decimal(
            status as nat,
        ) + "): "@ + text@,
        RemoteError::Catalog(inner) => protocol::protocol_text(inner),
        RemoteError::Fetch(reason) => reason@,
    }
}

impl RemoteError {
    /// The message of the error.
    pub fn message(&self) -> (r: String)
        ensures
            r@ == remote_text(*self),
    {
        match self {
            RemoteError::NotLoggedIn => "run `resync login SERVER TOKEN` first".to_owned(),
            RemoteError::Address(url) => cat2("invalid server URL ", url.as_str()),
            RemoteError::CatalogStatus(status, text) => {
                let code = decimal_text(*status as u64);
                cat4("catalog request failed (", code.as_str(), "): ", text.as_str())
            },
            RemoteError::Catalog(inner) => inner.message(),
            RemoteError::Fetch(reason) => reason.clone(),
        }
    }
}

/// Where the catalog is asked for, and the token to ask with.
#[derive(Debug)]
pub struct CatalogRequest {
    pub url: String,
    pub token: String,
}

/// The request for the catalog; it needs a login.
pub fn catalog_request(config: &Config) -> (r: Result<CatalogRequest, RemoteError>)
    ensures
        match r {
            Ok(request) => {
                &&& config.server is Some
                &&& config.token is Some
                &&& request.token@ == config.token->0@
                &&& address::url_resolved(config.server->0@, "/v1/catalog"@) == Some(request.url@)
            },
            Err(RemoteError::NotLoggedIn) => config.server is None || config.token is None,
            Err(RemoteError::Address(url)) => config.server is Some && url@ == config.server->0@
                && address::url_resolved(url@, "/v1/catalog"@) is None,
            Err(_) => false,
        },
{
    match (&config.server, &config.token) {
        (Some(server), Some(token)) => match join_url(server.as_str(), "/v1/catalog") {
            Some(url) => Ok(CatalogRequest { url, token: token.clone() }),
            None => Err(RemoteError::Address(server.clone())),
        },
        _ => Err(RemoteError::NotLoggedIn),
    }
}

/// Reads the reply to the request for the catalog.
pub fn fetch_catalog(status: u16, text: &str, parsed: &Json) -> (r: Result<Catalog, RemoteError>)
    ensures
        match r {
            Ok(catalog) => provider::is_success(status) && protocol::parsed_catalog(*parsed) == Ok::<
                (u64, Seq<CatalogProjectView>),
                ProtocolError,
            >((catalog.catalog_generation, protocol::catalog_views(catalog.projects@))),
            Err(RemoteError::CatalogStatus(code, start)) => !provider::is_success(status) && code == status
                && start@ == text::head(text@, 500),
            Err(RemoteError::Catalog(e)) => provider::is_success(status) && protocol::parsed_catalog(*parsed) == Err::<
                (u64, Seq<CatalogProjectView>),
                ProtocolError,
            >(e),
            Err(_) => false,
        },
{
    if status < 200 || status >= 300 {
        return Err(RemoteError::CatalogStatus(status, head_text(text, 500)));
    }
    match Catalog::from_value(parsed) {
        Ok(catalog) => Ok(catalog),
        Err(e) => Err(RemoteError::Catalog(e)),
    }
}

/// The position of a character, from `from` on.
pub open spec fn char_position(s: Seq<char>, c: char, from: int) -> Option<int>
    decreases s.len() - from,
{
    if from < 0 || from >= s.len() {
        None
    } else if s[from] == c {
        Some(from)
    } else {
        char_position(s, c, from + 1)
    }
}

/// The refs that lines of names and objects describe, up to line `n`; a later line overrides an
/// earlier one, and a line without a tab says nothing.
pub open spec fn parsed_refs(list: Seq<Seq<char>>, n: int) -> Map<Seq<char>, Seq<char>>
    decreases n,
{
    if n <= 0 {
        Map::empty()
    } else {
        let before = parsed_refs(list, n - 1);
        let line = list[n - 1];
        match char_position(line, '\t', 0) {
            Some(i) => before.insert(line.take(i), line.skip(i + 1)),
            None => before,
        }
    }
}

/// The refs that a listing describes; none where Git failed.
pub open spec fn listed_refs(result: RunResultView) -> Map<Seq<char>, Seq<char>> {
    let list = text::lines(text::trim(result.stdout));
    if result.code != 0 {
        Map::empty()
    } else {
        parsed_refs(list, list.len() as int)
    }
}

/// The first place of a character.
pub(crate) fn char_place(line: &Vec<char>, c: char) -> (r: Option<usize>)
    ensures
        match r {
            Some(i) => i < line.len() && char_position(line@, c, 0) == Some(i as int),
            None => char_position(line@, c, 0) is None,
        },
{
    let mut i: usize = 0;
    while i < line.len()
        invariant
            0 <= i <= line.len(),
            char_position(line@, c, 0) == char_position(line@, c, i as int),
        decreases line.len() - i,
    {
        if line[i] == c {
            return Some(i);
        }
        i += 1;
    }
    None
}

/// Reads a listing of refs.
pub fn parse_refs(result: &RunResult) -> (r: TextMap<String>)
    ensures
        text_map::texts(r@) == listed_refs(result@),
{
    let mut map: TextMap<String> = TextMap::new();
    assert(text_map::texts(map@) =~= Map::empty());
    if result.code != 0 {
        return map;
    }
    let text = trimmed(result.stdout.as_str());
    let list = lines_of(text.as_str());
    let ghost all = text::lines(text::trim(result.stdout@));
    let mut i: usize = 0;
    while i < list.len()
        invariant
            0 <= i <= list.len(),
            all == text::views(list@),
            text_map::texts(map@) == parsed_refs(all, i as int),
        decreases list.len() - i,
    {
        assert(all[i as int] == list@[i as int]@);
        let line = chars_of(list[i].as_str());
        match char_place(&line, '\t') {
            Some(k) => {
                let name = part_of(&line, 0, k);
                let oid = part_of(&line, k + 1, line.len());
                assert(name@ =~= line@.take(k as int));
                assert(oid@ =~= line@.skip(k + 1));
                put_text(&mut map, name.as_str(), oid.as_str());
            },
            None => {},
        }
        i += 1;
    }
    map
}

/// The command that lists refs below a prefix.
pub open spec fn refs_call(path: Seq<char>, prefix: Seq<char>) -> GitCallView {
    process::git_try(
        path,
        seq!["for-each-ref"@, "--format=%(refname:strip=2)\t%(objectname)"@, prefix],
    )
}

fn refs(path: &str, prefix: &str) -> (r: GitCall)
    ensures
        r@ == refs_call(path@, prefix@),
{
    git_lenient(
        path,
        words3("for-each-ref", "--format=%(refname:strip=2)\t%(objectname)", prefix),
    )
}

/// The branches of a worktree and their commits.
pub fn local_heads(project_path: &str, runs: &Vec<RunResult>) -> (r: Next<TextMap<String>>)
    ensures
        match r {
            Next::Run(call) => runs.len() == 0 && call@ == refs_call(
                project_path@,
                "refs/heads"@,
            ),
            Next::Done(heads) => runs.len() > 0 && text_map::texts(heads@) == listed_refs(runs@[0]@),
        },
{
    if runs.len() == 0 {
        Next::Run(refs(project_path, "refs/heads"))
    } else {
        Next::Done(parse_refs(&runs[0]))
    }
}

/// The branches of a remote among refs that are written behind its name, without its own HEAD.
pub open spec fn is_remote_heads(
    heads: Map<Seq<char>, Seq<char>>,
    refs: Map<Seq<char>, Seq<char>>,
    remote_name: Seq<char>,
) -> bool {
    forall|name: Seq<char>|
        #![trigger heads.contains_key(name)]
        {
            let written = remote_name + "/"@ + name;
            &&& heads.contains_key(name) <==> (name != "HEAD"@ && refs.contains_key(written))
            &&& heads.contains_key(name) ==> heads[name] == refs[written]
        }
}

fn strip_remote(refs: &TextMap<String>, remote_name: &str) -> (r: TextMap<String>)
    ensures
        is_remote_heads(text_map::texts(r@), text_map::texts(refs@), remote_name@),
{
    let prefix = cat2(remote_name, "/");
    let mut map: TextMap<String> = TextMap::new();
    let ghost whole = text_map::texts(refs@);
    assert(text_map::texts(map@) =~= Map::empty());
    let mut i: usize = 0;
    while i < refs.len()
        invariant
            0 <= i <= refs.spec_len(),
            whole == text_map::texts(refs@),
            prefix@ == remote_name@ + "/"@,
            forall|name: Seq<char>| #[trigger]
                text_map::texts(map@).contains_key(name) <==> (name != "HEAD"@ && exists|j: int|
                    0 <= j < i && #[trigger] refs.key(j) == prefix@ + name),
            forall|name: Seq<char>| #[trigger]
                text_map::texts(map@).contains_key(name) ==> whole.contains_key(prefix@ + name) && text_map::texts(
                    map@,
                )[name] == whole[prefix@ + name],
        decreases refs.spec_len() - i,
    {
        let key = refs.key_at(i);
        let value = refs.value_at(i);
        assert(whole.contains_key(key@) && whole[key@] == value@);
        let ghost before = text_map::texts(map@);
        match strip_prefix_text(key, prefix.as_str()) {
            Some(name) => {
                assert(key@ =~= prefix@ + name@);
                if !same_text(name.as_str(), "HEAD") {
                    put_text(&mut map, name.as_str(), value.as_str());
                }
                assert forall|other: Seq<char>| #[trigger]
                    text_map::texts(map@).contains_key(other) <==> (other != "HEAD"@ && exists|j: int|
                        0 <= j < i + 1 && #[trigger] refs.key(j) == prefix@ + other) by {
                    if refs.key(i as int) == prefix@ + other {
                        assert(other =~= (prefix@ + other).skip(prefix@.len() as int));
                        assert(name@ =~= (prefix@ + name@).skip(prefix@.len() as int));
                        assert(other == name@);
                    }
                    if other != "HEAD"@ && (exists|j: int|
                        0 <= j < i + 1 && #[trigger] refs.key(j) == prefix@ + other) {
                        let j = choose|j: int|
                            0 <= j < i + 1 && #[trigger] refs.key(j) == prefix@ + other;
                        if j < i {
                            assert(before.contains_key(other));
                        }
                    }
                    if before.contains_key(other) {
                        let j = choose|j: int|
                            0 <= j < i && #[trigger] refs.key(j) == prefix@ + other;
                        assert(0 <= j < i + 1 && refs.key(j) == prefix@ + other);
                    }
                    if other == name@ {
                        assert(refs.key(i as int) == prefix@ + other);
                    }
                }
            },
            None => {
                assert forall|other: Seq<char>| #[trigger]
                    text_map::texts(map@).contains_key(other) <==> (other != "HEAD"@ && exists|j: int|
                        0 <= j < i + 1 && #[trigger] refs.key(j) == prefix@ + other) by {
                    if refs.key(i as int) == prefix@ + other {
                        assert(prefix@ =~= (prefix@ + other).subrange(0, prefix@.len() as int));
                        assert(prefix@.is_prefix_of(key@));
                    }
                    if before.contains_key(other) {
                        let j = choose|j: int|
                            0 <= j < i && #[trigger] refs.key(j) == prefix@ + other;
                        assert(0 <= j < i + 1 && refs.key(j) == prefix@ + other);
                    }
                }
            },
        }
        i += 1;
    }
    assert forall|name: Seq<char>|
        #![trigger text_map::texts(map@).contains_key(name)]
        {
            let written = remote_name@ + "/"@ + name;
            &&& text_map::texts(map@).contains_key(name) <==> (name != "HEAD"@ && whole.contains_key(written))
            &&& text_map::texts(map@).contains_key(name) ==> text_map::texts(map@)[name] == whole[written]
        } by {
        refs.keys_cover(prefix@ + name);
    }
    map
}

/// The branches of a remote as they were last fetched.
pub fn remote_heads(project_path: &str, remote_name: &str, runs: &Vec<RunResult>) -> (r: Next<
    TextMap<String>,
>)
    ensures
        match r {
            Next::Run(call) => runs.len() == 0 && call@ == refs_call(
                project_path@,
                "refs/remotes/"@ + remote_name@,
            ),
            Next::Done(heads) => runs.len() > 0 && is_remote_heads(
                text_map::texts(heads@),
                listed_refs(runs@[0]@),
                remote_name@,
            ),
        },
{
    if runs.len() == 0 {
        let prefix = cat2("refs/remotes/", remote_name);
        Next::Run(refs(project_path, prefix.as_str()))
    } else {
        let all = parse_refs(&runs[0]);
        Next::Done(strip_remote(&all, remote_name))
    }
}

/// The mapping that fetches all branches of a remote.
pub open spec fn all_heads_refspec(remote_name: Seq<char>) -> Seq<char> {
    "+refs/heads/*:refs/remotes/"@ + remote_name + "/*"@
}

/// The command that fetches all branches of a remote.
pub open spec fn fetch_call(
    path: Seq<char>,
    remote_name: Seq<char>,
    token: Option<Seq<char>>,
    allow_failure: bool,
) -> GitCallView {
    git_with_token(
        path,
        seq!["fetch"@, "--prune"@, "--no-tags"@, remote_name, all_heads_refspec(remote_name)],
        token,
        allow_failure,
    )
}

/// The command that fetches all branches of a remote.
pub fn fetch_all(path: &str, remote_name: &str, token: &Option<String>, allow_failure: bool) -> (r:
    GitCall)
    ensures
        r@ == fetch_call(path@, remote_name@, text::opt_view(*token), allow_failure),
{
    let refspec = cat3("+refs/heads/*:refs/remotes/", remote_name, "/*");
    git_authorized(
        path,
        words5("fetch", "--prune", "--no-tags", remote_name, refspec.as_str()),
        token,
        allow_failure,
    )
}

/// Whether Git says that the remote has no such ref.
pub open spec fn says_no_ref(stderr: Seq<char>) -> bool {
    text::has_part(text::lower_text(stderr), "couldn't find remote ref"@)
}

/// The words for a failed fetch.
pub open spec fn fetch_reason(stderr: Seq<char>) -> Seq<char> {
    if text::trim(stderr).len() == 0 {
        "Git fetch failed"@
    } else {
        text::trim(stderr)
    }
}

/// Whether a fetch brought refs; a remote without the ref is no failure.
pub fn fetched(result: &RunResult) -> (r: Result<bool, RemoteError>)
    ensures
        match r {
            Ok(true) => result.code == 0,
            Ok(false) => result.code != 0 && says_no_ref(result.stderr@),
            Err(e) => result.code != 0 && !says_no_ref(result.stderr@) && (
            e matches RemoteError::Fetch(reason) && reason@ == fetch_reason(result.stderr@)),
        },
{
    if result.code == 0 {
        return Ok(true);
    }
    let lower = lowercase(result.stderr.as_str());
    if contains_text(lower.as_str(), "couldn't find remote ref") {
        return Ok(false);
    }
    let errors = trimmed(result.stderr.as_str());
    if is_blank(errors.as_str()) {
        Err(RemoteError::Fetch("Git fetch failed".to_owned()))
    } else {
        Err(RemoteError::Fetch(errors))
    }
}

/// Fetches all branches of a remote and reads them.
pub fn fetch_remote(
    project_path: &str,
    remote_name: &str,
    token: &Option<String>,
    runs: &Vec<RunResult>,
) -> (r: Result<Next<TextMap<String>>, RemoteError>)
    ensures
        match r {
            Ok(Next::Run(call)) => {
                ||| runs.len() == 0 && call@ == fetch_call(
                    project_path@,
                    remote_name@,
                    text::opt_view(*token),
                    true,
                )
                ||| runs.len() == 1 && runs@[0].code == 0 && call@ == refs_call(
                    project_path@,
                    "refs/remotes/"@ + remote_name@,
                )
            },
            Ok(Next::Done(heads)) => {
                ||| runs.len() >= 1 && runs@[0].code != 0 && says_no_ref(runs@[0].stderr@) && text_map::texts(
                    heads@,
                ) == Map::<Seq<char>, Seq<char>>::empty()
                ||| runs.len() >= 2 && runs@[0].code == 0 && is_remote_heads(
                    text_map::texts(heads@),
                    listed_refs(runs@[1]@),
                    remote_name@,
                )
            },
            Err(e) => runs.len() >= 1 && runs@[0].code != 0 && !says_no_ref(runs@[0].stderr@) && (
            e matches RemoteError::Fetch(reason) && reason@ == fetch_reason(runs@[0].stderr@)),
        },
{
    if runs.len() == 0 {
        return Ok(Next::Run(fetch_all(project_path, remote_name, token, true)));
    }
    match fetched(&runs[0]) {
        Ok(true) => {},
        Ok(false) => {
            let none: TextMap<String> = TextMap::new();
            assert(text_map::texts(none@) =~= Map::empty());
            return Ok(Next::Done(none));
        },
        Err(e) => {
            return Err(e);
        },
    }
    if runs.len() == 1 {
        let prefix = cat2("refs/remotes/", remote_name);
        return Ok(Next::Run(refs(project_path, prefix.as_str())));
    }
    let all = parse_refs(&runs[1]);
    Ok(Next::Done(strip_remote(&all, remote_name)))
}

/// The command that fetches one branch of a remote.
pub open spec fn fetch_branch_call(
    path: Seq<char>,
    remote_name: Seq<char>,
    branch: Seq<char>,
    token: Option<Seq<char>>,
) -> GitCallView {
    git_with_token(
        path,
        seq![
            "fetch"@,
            "--no-tags"@,
            remote_name,
            "+refs/heads/"@ + branch + ":refs/remotes/"@ + remote_name + ("/"@ + branch),
        ],
        token,
        true,
    )
}

/// Fetches one branch of a remote and reads its commit; none where the remote has no such branch.
pub fn fetch_remote_branch(
    project_path: &str,
    remote_name: &str,
    branch: &str,
    token: &Option<String>,
    runs: &Vec<RunResult>,
) -> (r: Result<Next<Option<String>>, RemoteError>)
    ensures
        match r {
            Ok(Next::Run(call)) => {
                ||| runs.len() == 0 && call@ == fetch_branch_call(
                    project_path@,
                    remote_name@,
                    branch@,
                    text::opt_view(*token),
                )
                ||| runs.len() == 1 && runs@[0].code == 0 && call@ == process::git_in(
                    project_path@,
                    seq![
                        "rev-parse"@,
                        "--verify"@,
                        "refs/remotes/"@ + remote_name@ + ("/"@ + branch@),
                    ],
                )
            },
            Ok(Next::Done(None)) => runs.len() >= 1 && runs@[0].code != 0 && says_no_ref(
                runs@[0].stderr@,
            ),
            Ok(Next::Done(Some(head))) => runs.len() >= 2 && runs@[0].code == 0 && head@ == text::trim(
                runs@[1].stdout@,
            ),
            Err(e) => runs.len() >= 1 && runs@[0].code != 0 && !says_no_ref(runs@[0].stderr@) && (
            e matches RemoteError::Fetch(reason) && reason@ == fetch_reason(runs@[0].stderr@)),
        },
{
    let below = cat2("/", branch);
    if runs.len() == 0 {
        let refspec = cat5(
            "+refs/heads/",
            branch,
            ":refs/remotes/",
            remote_name,
            below.as_str(),
        );
        return Ok(
            Next::Run(
                git_authorized(
                    project_path,
                    words4("fetch", "--no-tags", remote_name, refspec.as_str()),
                    token,
                    true,
                ),
            ),
        );
    }
    match fetched(&runs[0]) {
        Ok(true) => {},
        Ok(false) => {
            return Ok(Next::Done(None));
        },
        Err(e) => {
            return Err(e);
        },
    }
    if runs.len() == 1 {
        let name = cat3("refs/remotes/", remote_name, below.as_str());
        return Ok(
            Next::Run(git_strict(project_path, words3("rev-parse", "--verify", name.as_str()))),
        );
    }
    Ok(Next::Done(Some(trimmed(runs[1].stdout.as_str()))))
}

/// The command that gives a remote its URL.
pub open spec fn set_url_call(
    path: Seq<char>,
    known: bool,
    remote_name: Seq<char>,
    remote_url: Seq<char>,
) -> GitCallView {
    process::git_in(
        path,
        seq![
            "remote"@,
            if known {
                "set-url"@
            } else {
                "add"@
            },
            remote_name,
            remote_url,
        ],
    )
}

/// The command that gives a remote its URL.
pub fn set_url(path: &str, known: bool, remote_name: &str, remote_url: &str) -> (r: GitCall)
    ensures
        r@ == set_url_call(path@, known, remote_name@, remote_url@),
{
    let verb = if known {
        "set-url"
    } else {
        "add"
    };
    git_strict(path, words4("remote", verb, remote_name, remote_url))
}

/// The command that maps the branches of a remote.
pub open spec fn mapping_call(path: Seq<char>, remote_name: Seq<char>) -> GitCallView {
    process::git_in(
        path,
        seq![
            "config"@,
            "remote."@ + remote_name + ".fetch"@,
            all_heads_refspec(remote_name),
        ],
    )
}

/// The command that maps the branches of a remote.
pub fn map_heads(path: &str, remote_name: &str) -> (r: GitCall)
    ensures
        r@ == mapping_call(path@, remote_name@),
{
    let key = cat3("remote.", remote_name, ".fetch");
    let refspec = cat3("+refs/heads/*:refs/remotes/", remote_name, "/*");
    git_strict(path, words3("config", key.as_str(), refspec.as_str()))
}

/// The command that the set-up of a remote runs after those whose results are given: it asks for
/// the URL of the remote, sets or adds it, and maps its branches.
pub open spec fn configure_call(
    path: Seq<char>,
    remote_name: Seq<char>,
    remote_url: Seq<char>,
    done: Seq<RunResultView>,
) -> GitCallView {
    if done.len() == 0 {
        process::git_try(path, seq!["remote"@, "get-url"@, remote_name])
    } else if done.len() == 1 {
        set_url_call(path, done[0].code == 0, remote_name, remote_url)
    } else {
        mapping_call(path, remote_name)
    }
}

/// Sets up the remote of a worktree.
pub fn configure_remote(
    destination: &str,
    remote_name: &str,
    remote_url: &str,
    runs: &Vec<RunResult>,
) -> (r: Next<()>)
    ensures
        match r {
            Next::Run(call) => runs.len() < 3 && call@ == configure_call(
                destination@,
                remote_name@,
                remote_url@,
                git_state::results(runs@),
            ),
            Next::Done(_) => runs.len() >= 3,
        },
{
    if runs.len() == 0 {
        return Next::Run(git_lenient(destination, words3("remote", "get-url", remote_name)));
    }
    assert(git_state::results(runs@)[0] == runs@[0]@);
    if runs.len() == 1 {
        return Next::Run(set_url(destination, runs[0].code == 0, remote_name, remote_url));
    }
    if runs.len() == 2 {
        return Next::Run(map_heads(destination, remote_name));
    }
    Next::Done(())
}

/// What a heartbeat says of one checkout.
#[derive(Debug, Clone, PartialEq, Eq)]
pub struct HeartbeatRecord {
    pub project_id: String,
    pub checkout_id: Option<String>,
    pub active_branch: String,
}

/// One record for each checkout, with the one branch that it is on.
pub fn heartbeat(projects: &Vec<LocalProject>) -> (r: Vec<HeartbeatRecord>)
    ensures
        r.len() == projects.len(),
        forall|i: int|
            0 <= i < r.len() ==> {
                &&& (#[trigger] r@[i]).project_id@ == projects@[i]@.project_id
                &&& text::opt_view(r@[i].checkout_id) == projects@[i]@.checkout_id
                &&& r@[i].active_branch@ == state::branch_of(projects@[i]@)
            },
{
    let mut r: Vec<HeartbeatRecord> = Vec::new();
    let mut i: usize = 0;
    while i < projects.len()
        invariant
            0 <= i <= projects.len(),
            r.len() == i,
            forall|j: int|
                0 <= j < i ==> {
                    &&& (#[trigger] r@[j]).project_id@ == projects@[j]@.project_id
                    &&& text::opt_view(r@[j].checkout_id) == projects@[j]@.checkout_id
                    &&& r@[j].active_branch@ == state::branch_of(projects@[j]@)
                },
        decreases projects.len() - i,
    {
        r.push(
            HeartbeatRecord {
                project_id: projects[i].project_id.clone(),
                checkout_id: copy_option(&projects[i].checkout_id),
                active_branch: projects[i].branch(),
            },
        );
        i += 1;
    }
    r
}

/// What the provider says of one checkout.
#[derive(Debug, Clone, PartialEq, Eq)]
pub struct HeartbeatItem {
    pub project_id: String,
    pub membership: String,
    pub head: Option<String>,
    pub project_generation: u64,
}

/// What a [`HeartbeatItem`] holds.
pub struct HeartbeatItemView {
    pub project_id: Seq<char>,
    pub membership: Seq<char>,
    pub head: Option<Seq<char>>,
    pub project_generation: u64,
}

impl View for HeartbeatItem {
    type V = HeartbeatItemView;

    open spec fn view(&self) -> HeartbeatItemView {
        HeartbeatItemView {
            project_id: self.project_id@,
            membership: self.membership@,
            head: text::opt_view(self.head),
            project_generation: self.project_generation,
        }
    }
}

impl HeartbeatItem {
    /// A second value with the same contents.
    pub fn copy(&self) -> (r: Self)
        ensures
            r@ == self@,
    {
        HeartbeatItem {
            project_id: self.project_id.clone(),
            membership: self.membership.clone(),
            head: copy_option(&self.head),
            project_generation: self.project_generation,
        }
    }
}

/// The contents of a list of answers.
pub open spec fn item_views(items: Seq<HeartbeatItem>) -> Seq<HeartbeatItemView> {
    items.map_values(|i: HeartbeatItem| i@)
}

/// The answer for one checkout that an object describes.
pub open spec fn parsed_heartbeat(value: Json) -> Option<HeartbeatItemView> {
    match (json::text_field(value, "project_id"@), json::text_field(value, "membership"@)) {
        (Some(project_id), Some(membership)) => Some(
            HeartbeatItemView {
                project_id,
                membership,
                head: json::text_field(value, "head"@),
                project_generation: match json::number_field(value, "project_generation"@) {
                    Some(n) => n as u64,
                    None => 0,
                },
            },
        ),
        _ => None,
    }
}

impl HeartbeatItem {
    /// Reads the answer for one checkout.
    pub fn from_value(value: &Json) -> (r: Option<HeartbeatItem>)
        ensures
            match r {
                Some(item) => parsed_heartbeat(*value) == Some(item@),
                None => parsed_heartbeat(*value) is None,
            },
    {
        match (value.text_at("project_id"), value.text_at("membership")) {
            (Some(project_id), Some(membership)) => Some(
                HeartbeatItem {
                    project_id: project_id.to_owned(),
                    membership: membership.to_owned(),
                    head: match value.text_at("head") {
                        Some(head) => Some(head.to_owned()),
                        None => None,
                    },
                    project_generation: match value.number_at("project_generation") {
                        Some(n) => n,
                        None => 0,
                    },
                },
            ),
            _ => None,
        }
    }
}

/// Where a server is told of the checkouts.
pub fn heartbeat_url(server: &str) -> (r: Result<String, RemoteError>)
    ensures
        match r {
            Ok(url) => address::url_resolved(server@, "/v1/heartbeat"@) == Some(url@),
            Err(e) => address::url_resolved(server@, "/v1/heartbeat"@) is None && (
            e matches RemoteError::Address(named) && named@ == server@),
        },
{
    match join_url(server, "/v1/heartbeat") {
        Some(url) => Ok(url),
        None => Err(RemoteError::Address(server.to_owned())),
    }
}

/// The answers that the first `n` objects of a list describe; none if one of them describes none.
pub open spec fn parsed_heartbeats(items: Seq<Json>, n: int) -> Option<Seq<HeartbeatItemView>>
    decreases n,
{
    if n <= 0 {
        Some(Seq::empty())
    } else {
        match (parsed_heartbeats(items, n - 1), parsed_heartbeat(items[n - 1])) {
            (Some(front), Some(item)) => Some(front.push(item)),
            _ => None,
        }
    }
}

/// The answers that a reply holds.
pub open spec fn heartbeats_in(reply: Json) -> Option<Seq<HeartbeatItemView>> {
    match json::field(reply, "projects"@) {
        Some(Json::List(items)) => parsed_heartbeats(items@, items@.len() as int),
        _ => None,
    }
}

proof fn lemma_heartbeats_fail(items: Seq<Json>, i: int, n: int)
    requires
        0 <= i <= n,
        parsed_heartbeats(items, i) is None,
    ensures
        parsed_heartbeats(items, n) is None,
    decreases n,
{
    if i < n {
        lemma_heartbeats_fail(items, i, n - 1);
    }
}

/// Reads the reply to a heartbeat; none where it is not one.
pub fn heartbeat_reply(reply: &Json) -> (r: Option<Vec<HeartbeatItem>>)
    ensures
        match r {
            Some(list) => heartbeats_in(*reply) == Some(item_views(list@)),
            None => heartbeats_in(*reply) is None,
        },
{
    match reply.get("projects") {
        Some(Json::List(items)) => {
            let mut list: Vec<HeartbeatItem> = Vec::new();
            let mut i: usize = 0;
            assert(item_views(list@) =~= Seq::empty());
            while i < items.len()
                invariant
                    0 <= i <= items.len(),
                    heartbeats_in(*reply) == parsed_heartbeats(items@, items@.len() as int),
                    parsed_heartbeats(items@, i as int) == Some(item_views(list@)),
                decreases items.len() - i,
            {
                match HeartbeatItem::from_value(&items[i]) {
                    Some(item) => {
                        let ghost before = item_views(list@);
                        let ghost view = item@;
                        list.push(item);
                        assert(item_views(list@) =~= before.push(view));
                    },
                    None => {
                        proof {
                            lemma_heartbeats_fail(items@, i + 1, items@.len() as int);
                        }
                        return None;
                    },
                }
                i += 1;
            }
            Some(list)
        },
        _ => None,
    }
}

} // verus!
