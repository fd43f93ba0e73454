//! Enrolling another machine in a project.
use vstd::prelude::*;
use crate::adopt;
use crate::credentials;
use crate::daemon;
use crate::digest;
use crate::identity;
use crate::join;
use crate::json;
use crate::paths;
use crate::process;
use crate::protocol;
use crate::remote;
use crate::shell;
use crate::state;
use crate::text;
use crate::text_map;
use crate::adopt::find_head;
use crate::daemon::register_project;
use crate::digest::sha256_hex;
use crate::identity::{same_project, Identity, IdentityError, IdentityView};
use crate::join::{Join, Places, PlacesView};
use crate::json::Json;
use crate::paths::join_path;
use crate::process::{git_strict, words2, words3, GitCall, GitCallView, RunResult, RunResultView};
use crate::protocol::{Catalog, CatalogProject, CatalogProjectView};
use crate::provider::{Discovery, DiscoveryView};
use crate::remote::char_place;
use crate::shell::shell_quote;
use crate::state::{Config, LocalCatalog, LocalProject};
use crate::text::{
    ascii_lowercase, cat2, cat3, cat4, cat5, chars_of, copy_option, has_prefix, is_blank, join_text,
    lines_of, part_of, replace_text, same_text, space, trimmed,
};
use crate::text_map::lookup;

verus! {

/// Where join tickets for a project are asked for.
pub open spec fn ticket_url(d: DiscoveryView, project_id: Seq<char>) -> Seq<char> {
    match text_map::text_at(d.endpoints, "join_tickets"@) {
        Some(template) => text::replaced(
            text::replaced(template, "{project_id}"@, project_id),
            "%7Bproject_id%7D"@,
            project_id,
        ),
        None => d.origin + "/v1/projects/"@ + project_id + "/join-tickets"@,
    }
}

/// Where join tickets for a project are asked for: the template that the provider gives, with the
/// project filled in, else a place below the origin.
pub fn ticket_endpoint(discovery: &Discovery, project_id: &str) -> (r: String)
    ensures
        r@ == ticket_url(discovery@, project_id@),
{
    match lookup(&discovery.endpoints, "join_tickets") {
        Some(template) => {
            proof {
                reveal_strlit("{project_id}");
                reveal_strlit("%7Bproject_id%7D");
            }
            let plain = replace_text(template.as_str(), "{project_id}", project_id);
            replace_text(plain.as_str(), "%7Bproject_id%7D", project_id)
        },
        None => cat4(
            discovery.origin.as_str(),
            "/v1/projects/",
            project_id,
            "/join-tickets",
        ),
    }
}

/// Why a machine could not be enrolled.
#[derive(Debug, Clone, PartialEq, Eq)]
pub enum PeerError {
    /// No machine is named.
    NoTarget,
    /// A platform that there is no program for.
    Platform(String, String),
    /// The list of digests does not name a file.
    NoChecksum(String),
    /// A file is not the one that was released.
    Checksum(String),
    /// The provider redeems no tickets.
    NoRedemption,
    /// The enrollment holds no token.
    NoToken,
    /// The ticket is not one for the project.
    Unauthorized,
    /// The path belongs to another project.
    Occupied,
}

/// What a [`PeerError`] holds.
pub enum PeerErrorView {
    NoTarget,
    Platform(Seq<char>, Seq<char>),
    NoChecksum(Seq<char>),
    Checksum(Seq<char>),
    NoRedemption,
    NoToken,
    Unauthorized,
    Occupied,
}

impl View for PeerError {
    type V = PeerErrorView;

    open spec fn view(&self) -> PeerErrorView {
        match *self {
            PeerError::NoTarget => PeerErrorView::NoTarget,
            PeerError::Platform(a, b) => PeerErrorView::Platform(a@, b@),
            PeerError::NoChecksum(a) => PeerErrorView::NoChecksum(a@),
            PeerError::Checksum(a) => PeerErrorView::Checksum(a@),
            PeerError::NoRedemption => PeerErrorView::NoRedemption,
            PeerError::NoToken => PeerErrorView::NoToken,
            PeerError::Unauthorized => PeerErrorView::Unauthorized,
            PeerError::Occupied => PeerErrorView::Occupied,
        }
    }
}

/// What a [`PeerError`] says.
pub open spec fn peer_text(e: PeerErrorView) -> Seq<char> {
    match e {
        PeerErrorView::NoTarget => "peer sync requires an SSH target"@,
        PeerErrorView::Platform(os, arch) => "unsupported peer platform "@ + os + "/"@ + arch,
        PeerErrorView::NoChecksum(name) => "release checksum is missing "@ + name,
        PeerErrorView::Checksum(name) => "release checksum mismatch for "@ + name,
        PeerErrorView::NoRedemption => "provider discovery is missing ticket redemption endpoint"@,
        PeerErrorView::NoToken => "ticket enrollment returned no token"@,
        PeerErrorView::Unauthorized => "join ticket did not authorize the expected project"@,
        PeerErrorView::Occupied => "target path belongs to another RepoSync project; refusing to relink it"@,
    }
}

impl PeerError {
    /// The message of the error.
    pub fn message(&self) -> (r: String)
        ensures
            r@ == peer_text(self@),
    {
        match self {
            PeerError::NoTarget => "peer sync requires an SSH target".to_owned(),
            PeerError::Platform(os, arch) => cat4(
                "unsupported peer platform ",
                os.as_str(),
                "/",
                arch.as_str(),
            ),
            PeerError::NoChecksum(name) => cat2("release checksum is missing ", name.as_str()),
            PeerError::Checksum(name) => cat2("release checksum mismatch for ", name.as_str()),
            PeerError::NoRedemption => {
                "provider discovery is missing ticket redemption endpoint".to_owned()
            },
            PeerError::NoToken => "ticket enrollment returned no token".to_owned(),
            PeerError::Unauthorized => {
                "join ticket did not authorize the expected project".to_owned()
            },
            PeerError::Occupied => {
                "target path belongs to another RepoSync project; refusing to relink it".to_owned()
            },
        }
    }
}

/// The machine and the path that a target names: a path that is given beside it counts; else what
/// follows the first colon, unless the target is a URL or starts with the colon.
pub open spec fn target_parts(
    value: Seq<char>,
    explicit: Option<Seq<char>>,
) -> (Seq<char>, Option<Seq<char>>) {
    let colon = remote::char_position(value, ':', 0);
    if explicit is Some {
        (value, explicit)
    } else if !"ssh://"@.is_prefix_of(value) && colon is Some && colon->0 > 0 {
        let path = value.skip(colon->0 + 1);
        (
            value.take(colon->0),
            if path.len() > 0 {
                Some(path)
            } else {
                None
            },
        )
    } else {
        (value, None)
    }
}

/// A machine, and a path on it.
#[derive(Debug)]
pub struct Target {
    pub host: String,
    pub path: Option<String>,
}

/// Finds the machine and the path that a target names.
pub fn parse_target(value: &str, explicit_path: &Option<String>) -> (r: Result<Target, PeerError>)
    ensures
        match r {
            Ok(target) => value@.len() > 0 && (target.host@, text::opt_view(target.path))
                == target_parts(value@, text::opt_view(*explicit_path)),
            Err(e) => value@.len() == 0 && e is NoTarget,
        },
{
    if is_blank(value) {
        return Err(PeerError::NoTarget);
    }
    match explicit_path {
        Some(path) => {
            return Ok(Target { host: value.to_owned(), path: Some(path.clone()) });
        },
        None => {},
    }
    if !has_prefix(value, "ssh://") {
        let c = chars_of(value);
        match char_place(&c, ':') {
            Some(i) => {
                if i > 0 {
                    let host = part_of(&c, 0, i);
                    let path = part_of(&c, i + 1, c.len());
                    assert(host@ =~= value@.take(i as int));
                    assert(path@ =~= value@.skip(i + 1));
                    let path = if is_blank(path.as_str()) {
                        None
                    } else {
                        Some(path)
                    };
                    return Ok(Target { host, path });
                }
            },
            None => {},
        }
    }
    Ok(Target { host: value.to_owned(), path: None })
}

/// A path below the home directory of another machine, as its shell understands it.
pub open spec fn home_path(relative: Seq<char>) -> Seq<char> {
    "\"$HOME\"/"@ + shell::quoted_word(relative)
}

/// A path below the home directory of another machine, as its shell understands it.
pub fn remote_home_path(relative: &str) -> (r: String)
    ensures
        r@ == home_path(relative@),
{
    let word = shell_quote(relative);
    cat2("\"$HOME\"/", word.as_str())
}

/// How long a ticket is good for, in seconds.
pub const TICKET_SECONDS: u64 = 300;

/// The script that asks a machine for its platform.
pub const PLATFORM_PROBE: &'static str = "printf '%s\\n%s\\n' \"$(uname -s)\" \"$(uname -m)\"\n";

/// The name under which the program for a platform is released.
pub open spec fn platform_target(os: Seq<char>, arch: Seq<char>) -> Option<Seq<char>> {
    let arm = arch == "arm64"@ || arch == "aarch64"@;
    if os == "darwin"@ && arm {
        Some("aarch64-apple-darwin"@)
    } else if os == "darwin"@ && arch == "x86_64"@ {
        Some("x86_64-apple-darwin"@)
    } else if os == "linux"@ && arm {
        Some("aarch64-unknown-linux-gnu"@)
    } else if os == "linux"@ && (arch == "x86_64"@ || arch == "amd64"@) {
        Some("x86_64-unknown-linux-gnu"@)
    } else {
        None
    }
}

/// A line of a list, with its letters in lower case; nothing where there is none.
pub open spec fn lower_line(list: Seq<Seq<char>>, i: int) -> Seq<char> {
    if i < list.len() {
        text::ascii_lower(list[i])
    } else {
        text::ascii_lower(""@)
    }
}

fn lowered_line(list: &Vec<String>, i: usize) -> (r: String)
    ensures
        r@ == lower_line(text::views(list@), i as int),
{
    if i < list.len() {
        ascii_lowercase(list[i].as_str())
    } else {
        ascii_lowercase("")
    }
}

/// Reads what a machine says of its platform.
pub fn remote_target(output: &str) -> (r: Result<String, PeerError>)
    ensures
        ({
            let os = lower_line(text::lines(output@), 0);
            let arch = lower_line(text::lines(output@), 1);
            match r {
                Ok(target) => platform_target(os, arch) == Some(target@),
                Err(e) => platform_target(os, arch) is None && e@ == PeerErrorView::Platform(
                    os,
                    arch,
                ),
            }
        }),
{
    let list = lines_of(output);
    let os = lowered_line(&list, 0);
    let arch = lowered_line(&list, 1);
    let arm = same_text(arch.as_str(), "arm64") || same_text(arch.as_str(), "aarch64");
    if same_text(os.as_str(), "darwin") {
        if arm {
            return Ok("aarch64-apple-darwin".to_owned());
        }
        if same_text(arch.as_str(), "x86_64") {
            return Ok("x86_64-apple-darwin".to_owned());
        }
    }
    if same_text(os.as_str(), "linux") {
        if arm {
            return Ok("aarch64-unknown-linux-gnu".to_owned());
        }
        if same_text(arch.as_str(), "x86_64") || same_text(arch.as_str(), "amd64") {
            return Ok("x86_64-unknown-linux-gnu".to_owned());
        }
    }
    Err(PeerError::Platform(os, arch))
}

/// The name under which the program for this machine is released, by the names that the compiler
/// has for it.
pub fn current_target(os: &str, arch: &str) -> (r: Option<&'static str>)
    ensures
        match r {
            Some(target) => platform_target(
                if os@ == "macos"@ {
                    "darwin"@
                } else {
                    os@
                },
                arch@,
            ) == Some(target@) && (os@ == "macos"@ || os@ == "linux"@) && (arch@ == "aarch64"@
                || arch@ == "x86_64"@),
            None => !((os@ == "macos"@ || os@ == "linux"@) && (arch@ == "aarch64"@ || arch@
                == "x86_64"@)),
        },
{
    proof {
        reveal_strlit("macos");
        reveal_strlit("linux");
        reveal_strlit("darwin");
        reveal_strlit("aarch64");
        reveal_strlit("x86_64");
        reveal_strlit("arm64");
        assert("macos"@[0] != "linux"@[0]);
        assert("darwin"@.len() != "linux"@.len());
        assert("aarch64"@.len() != "x86_64"@.len());
        assert("arm64"@.len() != "x86_64"@.len());
    }
    if same_text(os, "macos") {
        if same_text(arch, "aarch64") {
            return Some("aarch64-apple-darwin");
        }
        if same_text(arch, "x86_64") {
            return Some("x86_64-apple-darwin");
        }
    }
    if same_text(os, "linux") {
        if same_text(arch, "aarch64") {
            return Some("aarch64-unknown-linux-gnu");
        }
        if same_text(arch, "x86_64") {
            return Some("x86_64-unknown-linux-gnu");
        }
    }
    None
}

/// Where a version of the program is released, unless the environment names another place.
pub fn release_base(environment: &Option<String>, version: &str) -> (r: String)
    ensures
        r@ == match *environment {
            Some(base) => base@,
            None => "https://github.com/tyrlabs-ai/resync/releases/download/v"@ + version@,
        },
{
    match environment {
        Some(base) => base.clone(),
        None => cat2("https://github.com/tyrlabs-ai/resync/releases/download/v", version),
    }
}

/// The words of a text and the characters of the word at its end.
pub open spec fn words_and_rest(s: Seq<char>) -> (Seq<Seq<char>>, Seq<char>)
    decreases s.len(),
{
    if s.len() == 0 {
        (Seq::empty(), Seq::empty())
    } else {
        let (words, rest) = words_and_rest(s.drop_last());
        if !text::is_space(s.last()) {
            (words, rest.push(s.last()))
        } else if rest.len() > 0 {
            (words.push(rest), Seq::empty())
        } else {
            (words, rest)
        }
    }
}

/// The words of a text: what stands between spaces.
pub open spec fn words_of(s: Seq<char>) -> Seq<Seq<char>> {
    let (words, rest) = words_and_rest(s);
    if rest.len() > 0 {
        words.push(rest)
    } else {
        words
    }
}

/// The words of a text.
pub fn split_words(s: &str) -> (r: Vec<String>)
    ensures
        text::views(r@) == words_of(s@),
{
    let c = chars_of(s);
    let mut words: Vec<String> = Vec::new();
    let mut rest = String::new();
    let mut i: usize = 0;
    assert(text::views(words@) =~= Seq::empty());
    assert(rest@ =~= Seq::empty());
    assert(s@.take(0) =~= Seq::empty());
    while i < c.len()
        invariant
            0 <= i <= c.len(),
            c@ == s@,
            (text::views(words@), rest@) == words_and_rest(s@.take(i as int)),
        decreases c.len() - i,
    {
        let ghost next = s@.take(i + 1);
        assert(next.drop_last() =~= s@.take(i as int));
        let ghost before = words@;
        if !space(c[i]) {
            rest.push(c[i]);
        } else if !is_blank(rest.as_str()) {
            let mut word = String::new();
            std::mem::swap(&mut word, &mut rest);
            let ghost text = word@;
            words.push(word);
            assert(text::views(words@) =~= text::views(before).push(text));
            assert(rest@ =~= Seq::empty());
        }
        i += 1;
    }
    assert(s@.take(i as int) =~= s@);
    if !is_blank(rest.as_str()) {
        let ghost before = words@;
        let ghost text = rest@;
        words.push(rest);
        assert(text::views(words@) =~= text::views(before).push(text));
    }
    words
}

/// A text without the stars at its start.
pub open spec fn without_stars(s: Seq<char>) -> Seq<char>
    decreases s.len(),
{
    if s.len() > 0 && s[0] == '*' {
        without_stars(s.skip(1))
    } else {
        s
    }
}

fn drop_stars(s: &str) -> (r: String)
    ensures
        r@ == without_stars(s@),
{
    let c = chars_of(s);
    let mut i: usize = 0;
    assert(s@.skip(0) =~= s@);
    while i < c.len() && c[i] == '*'
        invariant
            0 <= i <= c.len(),
            c@ == s@,
            without_stars(s@) == without_stars(s@.skip(i as int)),
        decreases c.len() - i,
    {
        assert(s@.skip(i as int).skip(1) =~= s@.skip(i + 1));
        i += 1;
    }
    assert(c@.subrange(i as int, c.len() as int) =~= s@.skip(i as int));
    part_of(&c, i, c.len())
}

/// The digest that a list gives for a file, from line `from` on.
pub open spec fn listed_digest(list: Seq<Seq<char>>, name: Seq<char>, from: int) -> Option<Seq<char>>
    decreases list.len() - from,
{
    if from < 0 || from >= list.len() {
        None
    } else {
        let words = words_of(list[from]);
        if words.len() >= 2 && without_stars(words[1]) == name {
            Some(words[0])
        } else {
            listed_digest(list, name, from + 1)
        }
    }
}

/// Checks a released program against the list of digests.
pub fn check_release(binary: &[u8], sums: &str, name: &str) -> (r: Result<(), PeerError>)
    ensures
        match listed_digest(text::lines(sums@), name@, 0) {
            None => r matches Err(e) && e@ == PeerErrorView::NoChecksum(name@),
            Some(expected) => if digest::sha256_text(binary@) == expected {
                r is Ok
            } else {
                r matches Err(e) && e@ == PeerErrorView::Checksum(name@)
            },
        },
{
    let list = lines_of(sums);
    let ghost all = text::lines(sums@);
    let mut i: usize = 0;
    while i < list.len()
        invariant
            0 <= i <= list.len(),
            all == text::views(list@),
            all == text::lines(sums@),
            listed_digest(all, name@, 0) == listed_digest(all, name@, i as int),
        decreases list.len() - i,
    {
        assert(all[i as int] == list@[i as int]@);
        let words = split_words(list[i].as_str());
        let ghost spec_words = words_of(all[i as int]);
        assert(spec_words.len() == words.len());
        if words.len() >= 2 {
            assert(spec_words[0] == words@[0]@);
            assert(spec_words[1] == words@[1]@);
            let file = drop_stars(words[1].as_str());
            if same_text(file.as_str(), name) {
                assert(listed_digest(all, name@, 0) == Some(words@[0]@));
                let actual = sha256_hex(binary);
                return if same_text(actual.as_str(), words[0].as_str()) {
                    Ok(())
                } else {
                    Err(PeerError::Checksum(name.to_owned()))
                };
            }
        }
        i += 1;
    }
    Err(PeerError::NoChecksum(name.to_owned()))
}

/// What it takes to put the program on another machine.
#[derive(Debug)]
pub struct Bootstrap {
    /// The script that makes the directory.
    pub prepare: String,
    /// Where the program is copied to, below the home directory.
    pub upload: String,
    /// The script that puts the program in place.
    pub activate: String,
    /// The program, as the shell of the machine understands it.
    pub executable: String,
}

/// Where a version of the program lies on another machine, below the home directory.
pub open spec fn remote_binary(version: Seq<char>) -> Seq<char> {
    ".local/share/resync/bin/"@ + version + "/resync"@
}

/// What it takes to put a version of the program on another machine.
pub fn bootstrap(version: &str) -> (r: Bootstrap)
    ensures
        ({
            let directory = ".local/share/resync/bin/"@ + version@;
            let remote = remote_binary(version@);
            let upload = home_path(remote + ".tmp"@);
            &&& r.prepare@ == "set -eu\nmkdir -p "@ + home_path(directory) + "\n"@
            &&& r.upload@ == remote + ".tmp"@
            &&& r.activate@ == "set -eu\nchmod 755 "@ + upload + "\nmv "@ + upload + (" "@
                + home_path(remote) + "\n"@)
            &&& r.executable@ == home_path(remote)
        }),
{
    let directory = cat2(".local/share/resync/bin/", version);
    let remote = cat3(".local/share/resync/bin/", version, "/resync");
    let temporary = cat2(remote.as_str(), ".tmp");
    let place = remote_home_path(directory.as_str());
    let upload = remote_home_path(temporary.as_str());
    let executable = remote_home_path(remote.as_str());
    let end = cat3(" ", executable.as_str(), "\n");
    Bootstrap {
        prepare: cat3("set -eu\nmkdir -p ", place.as_str(), "\n"),
        upload: temporary,
        activate: cat5(
            "set -eu\nchmod 755 ",
            upload.as_str(),
            "\nmv ",
            upload.as_str(),
            end.as_str(),
        ),
        executable,
    }
}

/// The hosted project with an identifier, from `from` on.
pub open spec fn hosted_position(
    projects: Seq<CatalogProjectView>,
    id: Seq<char>,
    from: int,
) -> Option<int>
    decreases projects.len() - from,
{
    if from < 0 || from >= projects.len() {
        None
    } else if projects[from].project_id == id {
        Some(from)
    } else {
        hosted_position(projects, id, from + 1)
    }
}

/// Finds a hosted project.
pub fn find_hosted(projects: &Vec<CatalogProject>, id: &str) -> (r: Option<usize>)
    ensures
        match r {
            Some(i) => i < projects.len() && hosted_position(protocol::catalog_views(projects@), id@, 0)
                == Some(i as int),
            None => hosted_position(protocol::catalog_views(projects@), id@, 0) is None,
        },
{
    let ghost all = protocol::catalog_views(projects@);
    let mut i: usize = 0;
    while i < projects.len()
        invariant
            0 <= i <= projects.len(),
            all == protocol::catalog_views(projects@),
            hosted_position(all, id@, 0) == hosted_position(all, id@, i as int),
        decreases projects.len() - i,
    {
        assert(all[i as int] == projects@[i as int]@);
        if same_text(projects[i].project_id.as_str(), id) {
            return Some(i);
        }
        i += 1;
    }
    None
}

/// The commit that a branch of a hosted project has.
pub open spec fn hosted_head(p: CatalogProjectView, branch: Seq<char>) -> Option<Seq<char>> {
    match adopt::head_position(p.advertised_heads, branch, 0) {
        Some(i) => Some(p.advertised_heads[i].oid),
        None => None,
    }
}

fn is_hosted_at(p: &CatalogProject, branch: &str, head: &str) -> (r: bool)
    ensures
        r == (hosted_head(p@, branch@) == Some(head@)),
{
    match find_head(&p.advertised_heads, branch) {
        Some(i) => {
            assert(p@.advertised_heads[i as int] == p.advertised_heads@[i as int]@);
            same_text(p.advertised_heads[i].oid.as_str(), head)
        },
        None => false,
    }
}

/// How far the enrollment of a machine has come.
#[derive(Debug, Clone, Copy, PartialEq, Eq, Structural)]
pub enum PeerStage {
    Identity,
    Credential,
    Discover,
    Catalog,
    Branch,
    Head,
    Publish,
    Recatalog,
    Ticket,
    Install,
    Accept,
    Status,
    Finished,
}

/// The enrollment of another machine in the project of this checkout, step by step:
/// [`PeerSync::request`] says what is to be done next, and [`PeerSync::advance`] takes what came
/// of it.
#[derive(Debug)]
pub struct PeerSync {
    pub stage: PeerStage,
    pub host: String,
    pub target_path: Option<String>,
    pub name: Option<String>,
    /// Whether the program is put on the machine first.
    pub bootstrap: bool,
    /// The server of the settings and the token for it.
    pub server: Option<String>,
    pub server_token: Option<String>,
    pub root: String,
    pub service: String,
    pub project_id: String,
    pub checkout_id: Option<String>,
    pub token: String,
    /// Where tickets are asked for.
    pub endpoint: String,
    pub branch: String,
    pub head: String,
    /// Whether the hosted branch has the commit of this checkout.
    pub hosted: bool,
    pub ticket: Option<String>,
    /// The program, as the shell of the machine understands it.
    pub executable: String,
    /// What the machine answered.
    pub remote: Json,
    pub dirty: bool,
    pub failure: Option<String>,
    /// The heads of the hosted project.
    pub project: Option<CatalogProject>,
}

/// What a [`PeerSync`] holds.
pub struct PeerSyncView {
    pub stage: PeerStage,
    pub host: Seq<char>,
    pub target_path: Option<Seq<char>>,
    pub name: Option<Seq<char>>,
    pub bootstrap: bool,
    pub server: Option<Seq<char>>,
    pub server_token: Option<Seq<char>>,
    pub root: Seq<char>,
    pub service: Seq<char>,
    pub project_id: Seq<char>,
    pub checkout_id: Option<Seq<char>>,
    pub token: Seq<char>,
    pub endpoint: Seq<char>,
    pub branch: Seq<char>,
    pub head: Seq<char>,
    pub hosted: bool,
    pub ticket: Option<Seq<char>>,
    pub executable: Seq<char>,
    pub remote: Json,
    pub dirty: bool,
    pub failure: Option<Seq<char>>,
    pub project: Option<CatalogProjectView>,
}

impl View for PeerSync {
    type V = PeerSyncView;

    open spec fn view(&self) -> PeerSyncView {
        PeerSyncView {
            stage: self.stage,
            host: self.host@,
            target_path: text::opt_view(self.target_path),
            name: text::opt_view(self.name),
            bootstrap: self.bootstrap,
            server: text::opt_view(self.server),
            server_token: text::opt_view(self.server_token),
            root: self.root@,
            service: self.service@,
            project_id: self.project_id@,
            checkout_id: text::opt_view(self.checkout_id),
            token: self.token@,
            endpoint: self.endpoint@,
            branch: self.branch@,
            head: self.head@,
            hosted: self.hosted,
            ticket: text::opt_view(self.ticket),
            executable: self.executable@,
            remote: self.remote,
            dirty: self.dirty,
            failure: text::opt_view(self.failure),
            project: match self.project {
                Some(p) => Some(p@),
                None => None,
            },
        }
    }
}

/// What the enrollment of a machine asks for.
#[derive(Debug, Clone, PartialEq, Eq)]
pub enum PeerAction {
    /// Read the identity of this checkout.
    Identity,
    /// Look up the credential for a service.
    Credential(String),
    /// Ask a service to describe itself.
    Discover(String),
    /// Fetch the catalog of a service, with a token.
    Catalog(String, String),
    /// Run this command.
    Git(GitCall),
    /// Have the daemon publish a project.
    Publish(String),
    /// Ask for a ticket at this address, with this token.
    Ticket(String, String),
    /// Put the program on this machine.
    Install(String),
    /// Run a script on this machine.
    Script(String, String),
    /// The machine is enrolled.
    Return,
    /// The machine is not enrolled, for this reason.
    Fail(String),
}

/// What a [`PeerAction`] holds.
pub enum PeerActionView {
    Identity,
    Credential(Seq<char>),
    Discover(Seq<char>),
    Catalog(Seq<char>, Seq<char>),
    Git(GitCallView),
    Publish(Seq<char>),
    Ticket(Seq<char>, Seq<char>),
    Install(Seq<char>),
    Script(Seq<char>, Seq<char>),
    Return,
    Fail(Seq<char>),
}

impl View for PeerAction {
    type V = PeerActionView;

    open spec fn view(&self) -> PeerActionView {
        match *self {
            PeerAction::Identity => PeerActionView::Identity,
            PeerAction::Credential(a) => PeerActionView::Credential(a@),
            PeerAction::Discover(a) => PeerActionView::Discover(a@),
            PeerAction::Catalog(a, b) => PeerActionView::Catalog(a@, b@),
            PeerAction::Git(a) => PeerActionView::Git(a@),
            PeerAction::Publish(a) => PeerActionView::Publish(a@),
            PeerAction::Ticket(a, b) => PeerActionView::Ticket(a@, b@),
            PeerAction::Install(a) => PeerActionView::Install(a@),
            PeerAction::Script(a, b) => PeerActionView::Script(a@, b@),
            PeerAction::Return => PeerActionView::Return,
            PeerAction::Fail(a) => PeerActionView::Fail(a@),
        }
    }
}

/// What came of a step.
#[derive(Debug)]
pub enum PeerEvent {
    Identity(Identity),
    Credential(Option<String>),
    Discovered(Discovery),
    Catalog(Vec<CatalogProject>),
    Ran(RunResult),
    /// What was asked for is done.
    Did,
    Replied(Json),
    /// The program on the machine, as its shell understands it.
    Installed(String),
    Failed(String),
}

/// What a [`PeerEvent`] holds.
pub enum PeerEventView {
    Identity(IdentityView),
    Credential(Option<Seq<char>>),
    Discovered(DiscoveryView),
    Catalog(Seq<CatalogProjectView>),
    Ran(RunResultView),
    Did,
    Replied(Json),
    Installed(Seq<char>),
    Failed(Seq<char>),
}

impl View for PeerEvent {
    type V = PeerEventView;

    open spec fn view(&self) -> PeerEventView {
        match *self {
            PeerEvent::Identity(a) => PeerEventView::Identity(a@),
            PeerEvent::Credential(a) => PeerEventView::Credential(text::opt_view(a)),
            PeerEvent::Discovered(a) => PeerEventView::Discovered(a@),
            PeerEvent::Catalog(a) => PeerEventView::Catalog(protocol::catalog_views(a@)),
            PeerEvent::Ran(a) => PeerEventView::Ran(a@),
            PeerEvent::Did => PeerEventView::Did,
            PeerEvent::Replied(a) => PeerEventView::Replied(a),
            PeerEvent::Installed(a) => PeerEventView::Installed(a@),
            PeerEvent::Failed(a) => PeerEventView::Failed(a@),
        }
    }
}

/// The arguments of the program on the other machine.
pub open spec fn accept_words(s: PeerSyncView, ticket: Seq<char>) -> Seq<Seq<char>> {
    let words = seq![
        "peer"@,
        "accept"@,
        "--provider"@,
        s.service,
        "--ticket"@,
        ticket,
        "--project"@,
        s.project_id,
        "--device-name"@,
        match s.name {
            Some(name) => name,
            None => s.host,
        },
    ];
    match s.target_path {
        Some(path) => words + seq!["--into"@, path],
        None => words,
    }
}

/// The script that makes another machine join: every argument is quoted.
pub open spec fn accept_script(executable: Seq<char>, words: Seq<Seq<char>>) -> Seq<char> {
    "set -eu\nexec "@ + executable + " "@ + text::join(
        words.map_values(|w: Seq<char>| shell::quoted_word(w)),
        " "@,
    ) + "\n"@
}

/// What is asked for at a stage.
pub open spec fn peer_requested(s: PeerSyncView) -> PeerActionView {
    match s.stage {
        PeerStage::Identity => PeerActionView::Identity,
        PeerStage::Credential => PeerActionView::Credential(s.service),
        PeerStage::Discover => PeerActionView::Discover(s.service),
        PeerStage::Catalog => PeerActionView::Catalog(s.service, s.token),
        PeerStage::Branch => PeerActionView::Git(
            process::git_in(s.root, seq!["symbolic-ref"@, "--short"@, "HEAD"@]),
        ),
        PeerStage::Head => PeerActionView::Git(process::git_in(s.root, seq!["rev-parse"@, "HEAD"@])),
        PeerStage::Publish => PeerActionView::Publish(s.project_id),
        PeerStage::Recatalog => PeerActionView::Catalog(s.service, s.token),
        PeerStage::Ticket => PeerActionView::Ticket(s.endpoint, s.token),
        PeerStage::Install => PeerActionView::Install(s.host),
        PeerStage::Accept => PeerActionView::Script(
            s.host,
            accept_script(
                s.executable,
                accept_words(
                    s,
                    match s.ticket {
                        Some(ticket) => ticket,
                        None => Seq::empty(),
                    },
                ),
            ),
        ),
        PeerStage::Status => PeerActionView::Git(
            process::git_in(s.root, seq!["status"@, "--porcelain"@]),
        ),
        PeerStage::Finished => match s.failure {
            Some(message) => PeerActionView::Fail(message),
            None => PeerActionView::Return,
        },
    }
}

/// An enrollment that failed.
pub open spec fn peer_failed(s: PeerSyncView, message: Seq<char>) -> PeerSyncView {
    PeerSyncView { stage: PeerStage::Finished, failure: Some(message), ..s }
}

/// An enrollment at another stage.
pub open spec fn peer_at(s: PeerSyncView, stage: PeerStage) -> PeerSyncView {
    PeerSyncView { stage, ..s }
}

/// An enrollment that knows which project this checkout belongs to.
pub open spec fn peer_identified(s: PeerSyncView, identity: IdentityView) -> PeerSyncView {
    match (identity.project_id, identity.service) {
        (Some(project_id), Some(service)) => PeerSyncView {
            stage: PeerStage::Credential,
            root: identity.root,
            service,
            project_id,
            checkout_id: identity.checkout_id,
            ..s
        },
        _ => peer_failed(
            s,
            "current checkout is not enrolled; run `resync project init` first"@,
        ),
    }
}

/// An enrollment that knows the credential: the one that was found, else the token of the settings
/// where they are for the same service.
pub open spec fn peer_authorized(s: PeerSyncView, found: Option<Seq<char>>) -> PeerSyncView {
    let token = match found {
        Some(token) => Some(token),
        None => if s.server == Some(s.service) {
            s.server_token
        } else {
            None
        },
    };
    match token {
        Some(token) => PeerSyncView { stage: PeerStage::Discover, token, ..s },
        None => peer_failed(s, "no credential for "@ + s.service),
    }
}

/// An enrollment that fetched the catalog.
pub open spec fn peer_listed(s: PeerSyncView, projects: Seq<CatalogProjectView>) -> PeerSyncView {
    match hosted_position(projects, s.project_id, 0) {
        Some(i) => PeerSyncView { stage: PeerStage::Branch, project: Some(projects[i]), ..s },
        None => peer_failed(s, "current device is no longer authorized for this project"@),
    }
}

/// An enrollment that knows the commit of this checkout: it is published unless it is hosted.
pub open spec fn peer_headed(s: PeerSyncView, head: Seq<char>) -> PeerSyncView {
    let hosted = s.project matches Some(p) && hosted_head(p, s.branch) == Some(head);
    PeerSyncView {
        stage: if hosted {
            PeerStage::Ticket
        } else {
            PeerStage::Publish
        },
        head,
        hosted,
        ..s
    }
}

/// An enrollment that fetched the catalog after the publication.
pub open spec fn peer_relisted(s: PeerSyncView, projects: Seq<CatalogProjectView>) -> PeerSyncView {
    match hosted_position(projects, s.project_id, 0) {
        None => peer_failed(s, "project disappeared after publication"@),
        Some(i) => if hosted_head(projects[i], s.branch) == Some(s.head) {
            PeerSyncView {
                stage: PeerStage::Ticket,
                hosted: true,
                project: Some(projects[i]),
                ..s
            }
        } else {
            peer_failed(
                s,
                "hosted branch "@ + s.branch + " did not advance to the current commit"@,
            )
        },
    }
}

/// An enrollment that has the program of the machine; it needs a ticket to go on.
pub open spec fn peer_installed(s: PeerSyncView, executable: Seq<char>) -> PeerSyncView {
    match s.ticket {
        Some(_) => PeerSyncView { stage: PeerStage::Accept, executable, ..s },
        None => peer_failed(
            PeerSyncView { executable, ..s },
            "provider returned no join ticket"@,
        ),
    }
}

/// An enrollment that asked for a ticket.
pub open spec fn peer_ticketed(s: PeerSyncView, reply: Json) -> PeerSyncView {
    let now = PeerSyncView { ticket: json::text_field(reply, "ticket"@), ..s };
    if s.bootstrap {
        peer_at(now, PeerStage::Install)
    } else {
        peer_installed(now, shell::quoted_word("resync"@))
    }
}

/// An enrollment that the machine answered: it must have joined the very project.
pub open spec fn peer_accepted(s: PeerSyncView, reply: Json) -> PeerSyncView {
    let now = PeerSyncView { remote: reply, ..s };
    if json::text_field(reply, "projectId"@) == Some(s.project_id) && json::text_field(reply, "service"@)
        == Some(s.service) {
        peer_at(now, PeerStage::Status)
    } else {
        peer_failed(now, "peer enrolled into an unexpected project identity"@)
    }
}

/// The enrollment after an event.
#[verifier::opaque]
pub open spec fn peer_next(s: PeerSyncView, e: PeerEventView) -> PeerSyncView {
    match (s.stage, e) {
        (PeerStage::Finished, _) => s,
        (_, PeerEventView::Failed(message)) => peer_failed(s, message),
        (PeerStage::Identity, PeerEventView::Identity(identity)) => peer_identified(s, identity),
        (PeerStage::Credential, PeerEventView::Credential(found)) => peer_authorized(s, found),
        (PeerStage::Discover, PeerEventView::Discovered(d)) => PeerSyncView {
            stage: PeerStage::Catalog,
            endpoint: ticket_url(d, s.project_id),
            ..s
        },
        (PeerStage::Catalog, PeerEventView::Catalog(projects)) => peer_listed(s, projects),
        (PeerStage::Branch, PeerEventView::Ran(result)) => PeerSyncView {
            stage: PeerStage::Head,
            branch: text::trim(result.stdout),
            ..s
        },
        (PeerStage::Head, PeerEventView::Ran(result)) => peer_headed(s, text::trim(result.stdout)),
        (PeerStage::Publish, PeerEventView::Did) => peer_at(s, PeerStage::Recatalog),
        (PeerStage::Recatalog, PeerEventView::Catalog(projects)) => peer_relisted(s, projects),
        (PeerStage::Ticket, PeerEventView::Replied(reply)) => peer_ticketed(s, reply),
        (PeerStage::Install, PeerEventView::Installed(executable)) => peer_installed(
            s,
            executable,
        ),
        (PeerStage::Accept, PeerEventView::Replied(reply)) => peer_accepted(s, reply),
        (PeerStage::Status, PeerEventView::Ran(result)) => PeerSyncView {
            stage: PeerStage::Finished,
            dirty: text::trim(result.stdout).len() > 0,
            ..s
        },
        _ => s,
    }
}

/// An enrollment at its start.
pub open spec fn peer_start(
    target: (Seq<char>, Option<Seq<char>>),
    name: Option<Seq<char>>,
    bootstrap: bool,
    server: Option<Seq<char>>,
    server_token: Option<Seq<char>>,
    remote: Json,
) -> PeerSyncView {
    PeerSyncView {
        stage: PeerStage::Identity,
        host: target.0,
        target_path: target.1,
        name,
        bootstrap,
        server,
        server_token,
        root: Seq::empty(),
        service: Seq::empty(),
        project_id: Seq::empty(),
        checkout_id: None,
        token: Seq::empty(),
        endpoint: Seq::empty(),
        branch: Seq::empty(),
        head: Seq::empty(),
        hosted: false,
        ticket: None,
        executable: Seq::empty(),
        remote,
        dirty: false,
        failure: None,
        project: None,
    }
}

/// What holds of every enrollment: a machine is asked to join only with a ticket, and only once
/// the hosted branch has the commit of this checkout.
pub open spec fn peer_valid(s: PeerSyncView) -> bool {
    &&& s.stage == PeerStage::Accept ==> s.ticket is Some
    &&& (s.stage == PeerStage::Ticket || s.stage == PeerStage::Install || s.stage
        == PeerStage::Accept || s.stage == PeerStage::Status) ==> s.hosted && (
    s.project matches Some(p) && hosted_head(p, s.branch) == Some(s.head))
    &&& s.stage == PeerStage::Status ==> json::text_field(s.remote, "projectId"@) == Some(s.project_id)
        && json::text_field(s.remote, "service"@) == Some(s.service)
    &&& s.failure is Some ==> s.stage == PeerStage::Finished
}

fn nothing() -> (r: String)
    ensures
        r@ == Seq::<char>::empty(),
{
    let r = String::new();
    assert(r@ =~= Seq::empty());
    r
}

/// Starts the enrollment of another machine.
pub fn peer_sync(
    target_value: &str,
    into: &Option<String>,
    name: &Option<String>,
    no_bootstrap: bool,
    config: &Config,
) -> (r: Result<PeerSync, PeerError>)
    ensures
        match r {
            Ok(s) => target_value@.len() > 0 && s@ == peer_start(
                target_parts(target_value@, text::opt_view(*into)),
                text::opt_view(*name),
                !no_bootstrap,
                config@.server,
                config@.token,
                Json::Null,
            ) && peer_valid(s@),
            Err(e) => target_value@.len() == 0 && e is NoTarget,
        },
{
    match parse_target(target_value, into) {
        Err(e) => Err(e),
        Ok(target) => Ok(
            PeerSync {
                stage: PeerStage::Identity,
                host: target.host,
                target_path: target.path,
                name: copy_option(name),
                bootstrap: !no_bootstrap,
                server: copy_option(&config.server),
                server_token: copy_option(&config.token),
                root: nothing(),
                service: nothing(),
                project_id: nothing(),
                checkout_id: None,
                token: nothing(),
                endpoint: nothing(),
                branch: nothing(),
                head: nothing(),
                hosted: false,
                ticket: None,
                executable: nothing(),
                remote: Json::Null,
                dirty: false,
                failure: None,
                project: None,
            },
        ),
    }
}

fn quote_all(words: &Vec<String>) -> (r: Vec<String>)
    ensures
        text::views(r@) == text::views(words@).map_values(|w: Seq<char>| shell::quoted_word(w)),
{
    let mut r: Vec<String> = Vec::new();
    let mut i: usize = 0;
    while i < words.len()
        invariant
            0 <= i <= words.len(),
            r.len() == i,
            forall|j: int| 0 <= j < i ==> (#[trigger] r@[j])@ == shell::quoted_word(words@[j]@),
        decreases words.len() - i,
    {
        r.push(shell_quote(words[i].as_str()));
        i += 1;
    }
    assert(text::views(r@) =~= text::views(words@).map_values(|w: Seq<char>| shell::quoted_word(w)));
    r
}

impl PeerSync {
    fn script(&self) -> (r: String)
        ensures
            r@ == accept_script(
                self@.executable,
                accept_words(
                    self@,
                    match self@.ticket {
                        Some(ticket) => ticket,
                        None => Seq::empty(),
                    },
                ),
            ),
    {
        let ticket = match &self.ticket {
            Some(ticket) => ticket.clone(),
            None => nothing(),
        };
        let device = match &self.name {
            Some(name) => name.clone(),
            None => self.host.clone(),
        };
        let mut words = vec![
            "peer".to_owned(),
            "accept".to_owned(),
            "--provider".to_owned(),
            self.service.clone(),
            "--ticket".to_owned(),
            ticket,
            "--project".to_owned(),
            self.project_id.clone(),
            "--device-name".to_owned(),
            device,
        ];
        match &self.target_path {
            Some(path) => {
                words.push("--into".to_owned());
                words.push(path.clone());
            },
            None => {},
        }
        assert(text::views(words@) =~= accept_words(
            self@,
            match self@.ticket {
                Some(ticket) => ticket,
                None => Seq::empty(),
            },
        ));
        let quoted_list = quote_all(&words);
        let arguments = join_text(&quoted_list, " ");
        cat5("set -eu\nexec ", self.executable.as_str(), " ", arguments.as_str(), "\n")
    }

    /// What is to be done next.
    pub fn request(&self) -> (r: PeerAction)
        ensures
            r@ == peer_requested(self@),
    {
        let root = self.root.as_str();
        match self.stage {
            PeerStage::Identity => PeerAction::Identity,
            PeerStage::Credential => PeerAction::Credential(self.service.clone()),
            PeerStage::Discover => PeerAction::Discover(self.service.clone()),
            PeerStage::Catalog => PeerAction::Catalog(self.service.clone(), self.token.clone()),
            PeerStage::Branch => PeerAction::Git(
                git_strict(root, words3("symbolic-ref", "--short", "HEAD")),
            ),
            PeerStage::Head => PeerAction::Git(git_strict(root, words2("rev-parse", "HEAD"))),
            PeerStage::Publish => PeerAction::Publish(self.project_id.clone()),
            PeerStage::Recatalog => PeerAction::Catalog(self.service.clone(), self.token.clone()),
            PeerStage::Ticket => PeerAction::Ticket(self.endpoint.clone(), self.token.clone()),
            PeerStage::Install => PeerAction::Install(self.host.clone()),
            PeerStage::Accept => PeerAction::Script(self.host.clone(), self.script()),
            PeerStage::Status => PeerAction::Git(
                git_strict(root, words2("status", "--porcelain")),
            ),
            PeerStage::Finished => match &self.failure {
                Some(message) => PeerAction::Fail(message.clone()),
                None => PeerAction::Return,
            },
        }
    }

    fn fail(&mut self, message: String)
        ensures
            final(self)@ == peer_failed(old(self)@, message@),
    {
        self.stage = PeerStage::Finished;
        self.failure = Some(message);
    }

    fn at_identity(&mut self, identity: Identity)
        ensures
            final(self)@ == peer_identified(old(self)@, identity@),
    {
        match (identity.project_id, identity.service) {
            (Some(project_id), Some(service)) => {
                self.stage = PeerStage::Credential;
                self.root = identity.root;
                self.service = service;
                self.project_id = project_id;
                self.checkout_id = identity.checkout_id;
            },
            _ => {
                self.fail(
                    "current checkout is not enrolled; run `resync project init` first".to_owned(),
                );
            },
        }
    }

    fn at_credential(&mut self, found: Option<String>)
        ensures
            final(self)@ == peer_authorized(old(self)@, text::opt_view(found)),
    {
        let token = match found {
            Some(token) => Some(token),
            None => {
                let same = match &self.server {
                    Some(server) => same_text(server.as_str(), self.service.as_str()),
                    None => false,
                };
                if same {
                    copy_option(&self.server_token)
                } else {
                    None
                }
            },
        };
        match token {
            Some(token) => {
                self.stage = PeerStage::Discover;
                self.token = token;
            },
            None => {
                let message = cat2("no credential for ", self.service.as_str());
                self.fail(message);
            },
        }
    }

    fn at_catalog(&mut self, projects: Vec<CatalogProject>)
        ensures
            final(self)@ == peer_listed(old(self)@, protocol::catalog_views(projects@)),
    {
        match find_hosted(&projects, self.project_id.as_str()) {
            Some(i) => {
                let mut projects = projects;
                assert(protocol::catalog_views(projects@)[i as int] == projects@[i as int]@);
                let project = projects.remove(i);
                self.project = Some(project);
                self.stage = PeerStage::Branch;
            },
            None => {
                self.fail("current device is no longer authorized for this project".to_owned());
            },
        }
    }

    fn at_head(&mut self, head: String)
        ensures
            final(self)@ == peer_headed(old(self)@, head@),
    {
        let hosted = match &self.project {
            Some(p) => is_hosted_at(p, self.branch.as_str(), head.as_str()),
            None => false,
        };
        self.stage = if hosted {
            PeerStage::Ticket
        } else {
            PeerStage::Publish
        };
        self.head = head;
        self.hosted = hosted;
    }

    fn at_recatalog(&mut self, projects: Vec<CatalogProject>)
        ensures
            final(self)@ == peer_relisted(old(self)@, protocol::catalog_views(projects@)),
    {
        match find_hosted(&projects, self.project_id.as_str()) {
            None => {
                self.fail("project disappeared after publication".to_owned());
            },
            Some(i) => {
                let mut projects = projects;
                assert(protocol::catalog_views(projects@)[i as int] == projects@[i as int]@);
                let project = projects.remove(i);
                if is_hosted_at(&project, self.branch.as_str(), self.head.as_str()) {
                    self.stage = PeerStage::Ticket;
                    self.hosted = true;
                    self.project = Some(project);
                } else {
                    let message = cat3(
                        "hosted branch ",
                        self.branch.as_str(),
                        " did not advance to the current commit",
                    );
                    self.fail(message);
                }
            },
        }
    }

    fn at_installed(&mut self, executable: String)
        ensures
            final(self)@ == peer_installed(old(self)@, executable@),
    {
        self.executable = executable;
        if self.ticket.is_some() {
            self.stage = PeerStage::Accept;
        } else {
            self.fail("provider returned no join ticket".to_owned());
        }
    }

    fn at_ticket(&mut self, reply: Json)
        ensures
            final(self)@ == peer_ticketed(old(self)@, reply),
    {
        self.ticket = match reply.text_at("ticket") {
            Some(ticket) => Some(ticket.to_owned()),
            None => None,
        };
        if self.bootstrap {
            self.stage = PeerStage::Install;
        } else {
            let executable = shell_quote("resync");
            self.at_installed(executable);
        }
    }

    fn at_accepted(&mut self, reply: Json)
        ensures
            final(self)@ == peer_accepted(old(self)@, reply),
    {
        let same_project = match reply.text_at("projectId") {
            Some(id) => same_text(id, self.project_id.as_str()),
            None => false,
        };
        let same_service = match reply.text_at("service") {
            Some(service) => same_text(service, self.service.as_str()),
            None => false,
        };
        self.remote = reply;
        if same_project && same_service {
            self.stage = PeerStage::Status;
        } else {
            self.fail("peer enrolled into an unexpected project identity".to_owned());
        }
    }

    /// Takes what came of the step that was asked for.
    pub fn advance(&mut self, event: PeerEvent)
        requires
            peer_valid(old(self)@),
        ensures
            final(self)@ == peer_next(old(self)@, event@),
            peer_valid(final(self)@),
    {
        reveal(peer_next);
        match (self.stage, event) {
            (PeerStage::Finished, _) => {},
            (_, PeerEvent::Failed(message)) => {
                self.fail(message);
            },
            (PeerStage::Identity, PeerEvent::Identity(identity)) => {
                self.at_identity(identity);
            },
            (PeerStage::Credential, PeerEvent::Credential(found)) => {
                self.at_credential(found);
            },
            (PeerStage::Discover, PeerEvent::Discovered(discovery)) => {
                self.endpoint = ticket_endpoint(&discovery, self.project_id.as_str());
                self.stage = PeerStage::Catalog;
            },
            (PeerStage::Catalog, PeerEvent::Catalog(projects)) => {
                self.at_catalog(projects);
            },
            (PeerStage::Branch, PeerEvent::Ran(result)) => {
                self.branch = trimmed(result.stdout.as_str());
                self.stage = PeerStage::Head;
            },
            (PeerStage::Head, PeerEvent::Ran(result)) => {
                let head = trimmed(result.stdout.as_str());
                self.at_head(head);
            },
            (PeerStage::Publish, PeerEvent::Did) => {
                self.stage = PeerStage::Recatalog;
            },
            (PeerStage::Recatalog, PeerEvent::Catalog(projects)) => {
                self.at_recatalog(projects);
            },
            (PeerStage::Ticket, PeerEvent::Replied(reply)) => {
                self.at_ticket(reply);
            },
            (PeerStage::Install, PeerEvent::Installed(executable)) => {
                self.at_installed(executable);
            },
            (PeerStage::Accept, PeerEvent::Replied(reply)) => {
                self.at_accepted(reply);
            },
            (PeerStage::Status, PeerEvent::Ran(result)) => {
                let status = trimmed(result.stdout.as_str());
                self.dirty = !is_blank(status.as_str());
                self.stage = PeerStage::Finished;
            },
            _ => {},
        }
    }

    /// What is said of work that is only in this checkout.
    pub fn warning(&self) -> (r: Option<&'static str>)
        ensures
            match r {
                Some(text) => self.dirty && text@
                    == "local uncommitted work remains only on this checkout"@,
                None => !self.dirty,
            },
    {
        if self.dirty {
            Some("local uncommitted work remains only on this checkout")
        } else {
            None
        }
    }
}

/// The enrollment after a number of events.
pub open spec fn peer_replayed(s: PeerSyncView, events: Seq<PeerEventView>) -> PeerSyncView
    decreases events.len(),
{
    if events.len() == 0 {
        s
    } else {
        peer_next(peer_replayed(s, events.drop_last()), events.last())
    }
}

proof fn lemma_peer_step(s: PeerSyncView, e: PeerEventView)
    requires
        peer_valid(s),
    ensures
        peer_valid(peer_next(s, e)),
{
    reveal(peer_next);
}

/// Another machine is asked to join only once the hosted branch has the commit of this checkout,
/// and with a ticket of the provider.
pub proof fn law_peer_joins_what_is_hosted(s: PeerSyncView, events: Seq<PeerEventView>)
    requires
        peer_valid(s),
    ensures
        peer_valid(peer_replayed(s, events)),
        ({
            let now = peer_replayed(s, events);
            now.stage == PeerStage::Accept ==> now.ticket is Some && (now.project matches Some(p)
                && hosted_head(p, now.branch) == Some(now.head))
        }),
    decreases events.len(),
{
    if events.len() > 0 {
        law_peer_joins_what_is_hosted(s, events.drop_last());
        lemma_peer_step(peer_replayed(s, events.drop_last()), events.last());
    }
}

/// A machine that joins a project with a ticket.
#[derive(Debug)]
pub struct AcceptOptions<'a> {
    pub provider: &'a str,
    pub ticket: &'a str,
    pub project_id: &'a str,
    pub into: Option<&'a str>,
    pub device_name: &'a str,
}

/// Where a machine keeps a project that it joins: where it was told to, else where its projects
/// are managed, else below the home directory.
pub open spec fn destination_for(
    explicit: Option<Seq<char>>,
    managed: Option<Seq<char>>,
    home: Option<Seq<char>>,
    project_id: Seq<char>,
    project_name: Seq<char>,
) -> Seq<char> {
    if explicit is Some {
        explicit->0
    } else if managed is Some {
        managed->0
    } else {
        paths::joined(
            paths::joined(
                paths::joined(
                    match home {
                        Some(path) => path,
                        None => "."@,
                    },
                    ".local/share/resync/checkouts"@,
                ),
                project_id,
            ),
            project_name,
        )
    }
}

/// The view of a text that may be missing.
pub open spec fn str_view(s: Option<&str>) -> Option<Seq<char>> {
    match s {
        Some(text) => Some(text@),
        None => None,
    }
}

/// Where a machine keeps a project that it joins.
pub fn peer_destination(
    explicit: Option<&str>,
    managed_project_path: Option<&str>,
    home: Option<&str>,
    project_id: &str,
    project_name: &str,
) -> (r: String)
    ensures
        r@ == destination_for(
            str_view(explicit),
            str_view(managed_project_path),
            str_view(home),
            project_id@,
            project_name@,
        ),
{
    match (explicit, managed_project_path) {
        (Some(path), _) => path.to_owned(),
        (None, Some(path)) => path.to_owned(),
        (None, None) => {
            let base = match home {
                Some(path) => path,
                None => ".",
            };
            let checkouts = join_path(base, ".local/share/resync/checkouts");
            let project = join_path(checkouts.as_str(), project_id);
            join_path(project.as_str(), project_name)
        },
    }
}

/// Starts to join a project with a ticket, given where a machine may keep it.
pub fn peer_accept(
    options: &AcceptOptions<'_>,
    managed_project_path: Option<&str>,
    home: Option<&str>,
) -> (r: Join)
    ensures
        r@ == join::join_start(
            true,
            options.project_id@,
            PlacesView {
                into: str_view(options.into),
                managed: str_view(managed_project_path),
                home: str_view(home),
            },
        ),
{
    let places = Places {
        into: owned(options.into),
        managed: owned(managed_project_path),
        home: owned(home),
    };
    Join::new(true, options.project_id, places)
}

fn owned(value: Option<&str>) -> (r: Option<String>)
    ensures
        text::opt_view(r) == str_view(value),
{
    match value {
        Some(text) => Some(text.to_owned()),
        None => None,
    }
}

/// Whether a destination with an identity of its own may become a checkout of a project: it
/// belongs to no project, or to that one.
pub fn may_relink(current: &Identity, origin: &str, project_id: &str) -> (r: Result<
    bool,
    IdentityError,
>)
    ensures
        ({
            let expected = IdentityView {
                root: current@.root,
                service: Some(origin@),
                project_id: Some(project_id@),
                checkout_id: None,
            };
            match r {
                Ok(may) => may == (current@.project_id is None || identity::are_same_project(
                    current@,
                    expected,
                )) && (current@.project_id is Some && current@.service is Some
                    ==> credentials::origin_of(current@.service->0) is Some
                    && credentials::origin_of(origin@) is Some),
                Err(e) => current@.project_id is Some && current@.service is Some && (
                e matches IdentityError::Service(inner) && identity::refuses_either(
                    current@.service->0,
                    origin@,
                    inner,
                )),
            }
        }),
{
    if current.project_id.is_none() {
        return Ok(true);
    }
    let expected = Identity {
        root: current.root.clone(),
        service: Some(origin.to_owned()),
        project_id: Some(project_id.to_owned()),
        checkout_id: None,
    };
    same_project(current, &expected)
}

/// Puts a project that was joined into the catalog, in place of those with its identifier or its
/// path; the generation of the catalog is the one that was fetched with it.
pub fn persist_project(
    catalog: LocalCatalog,
    project: LocalProject,
    generation: Option<u64>,
) -> (r: LocalCatalog)
    ensures
        state::project_views(r.projects@) == daemon::unrelated(state::project_views(catalog.projects@), project@).push(
            project@,
        ),
        r.catalog_generation == match generation {
            Some(n) => n,
            None => catalog.catalog_generation,
        },
{
    let before = catalog.catalog_generation;
    let registered = register_project(catalog, project, None);
    LocalCatalog {
        catalog_generation: match generation {
            Some(n) => n,
            None => before,
        },
        projects: registered.projects,
    }
}

} // verus!
