//! Which build of the program is installed, and which builds are left over.
use vstd::prelude::*;
use crate::json;
use crate::paths;
use crate::text;
use crate::daemon::daemon_matches_client;
use crate::json::Json;
use crate::paths::{join_path, parent_of, same_path, starts_with_path};
use crate::process::{words3, words5, RunResult};
use crate::text::{
    cat2, cat3, cat4, chars_of, contains_text, decimal_text, head_text, insert_ordered, same_text,
    trimmed,
};
use crate::transaction::Candidate;

verus! {

/// Why a build is not put in place.
#[derive(Debug, Clone, PartialEq, Eq)]
pub enum InstallError {
    /// The home directory is not known.
    NoHome,
    /// The copy of a build differs from the build.
    Damaged,
    /// An executable that lies in no directory.
    NoParent,
    /// A process still runs this left over build.
    Referenced(String),
    /// The program that activates a build is another one.
    NotStaged,
    /// The daemon is another build.
    NotActivated,
    /// An older installation at a path stays, for the reason given.
    NodeRemains(String, String),
    /// An older installation at a path stays, for the reason given.
    PrefixRemains(String, String),
    /// An older installation stays.
    VitePlusRemains,
}

/// What an [`InstallError`] says.
pub open spec fn install_text(e: InstallError) -> Seq<char> {
    match e {
        InstallError::NoHome => "HOME is unavailable"@,
        InstallError::Damaged => "staged RepoSync build failed fingerprint validation"@,
        InstallError::NoParent => "managed RepoSync executable has no parent directory"@,
        InstallError::Referenced(path) => "obsolete RepoSync build "@ + path@
            + " is still referenced by a running process"@,
        InstallError::NotStaged => {
            "upgrade activation must run from the staged canonical build"@
        },
        InstallError::NotActivated => {
            "RepoSync daemon did not activate the staged build identity"@
        },
        InstallError::NodeRemains(path, reason) => {
            "could not remove obsolete NVM RepoSync installation at "@ + path@ + ": "@ + reason@
        },
        InstallError::PrefixRemains(path, reason) => {
            "could not remove obsolete npm RepoSync installation at "@ + path@ + ": "@ + reason@
        },
        InstallError::VitePlusRemains => "could not remove Vite Plus RepoSync installation"@,
    }
}

impl InstallError {
    /// The message of the error.
    pub fn message(&self) -> (r: String)
        ensures
            r@ == install_text(*self),
    {
        match self {
            InstallError::NoHome => "HOME is unavailable".to_owned(),
            InstallError::Damaged => {
                "staged RepoSync build failed fingerprint validation".to_owned()
            },
            InstallError::NoParent => {
                "managed RepoSync executable has no parent directory".to_owned()
            },
            InstallError::Referenced(path) => cat3(
                "obsolete RepoSync build ",
                path.as_str(),
                " is still referenced by a running process",
            ),
            InstallError::NotStaged => {
                "upgrade activation must run from the staged canonical build".to_owned()
            },
            InstallError::NotActivated => {
                "RepoSync daemon did not activate the staged build identity".to_owned()
            },
            InstallError::NodeRemains(path, reason) => cat4(
                "could not remove obsolete NVM RepoSync installation at ",
                path.as_str(),
                ": ",
                reason.as_str(),
            ),
            InstallError::PrefixRemains(path, reason) => cat4(
                "could not remove obsolete npm RepoSync installation at ",
                path.as_str(),
                ": ",
                reason.as_str(),
            ),
            InstallError::VitePlusRemains => {
                "could not remove Vite Plus RepoSync installation".to_owned()
            },
        }
    }
}

/// Where builds are installed: below a directory that was given, else in the home directory, which
/// has to be known in any case.
pub fn managed_install_root(given: &Option<String>, home: &Option<String>) -> (r: Result<
    String,
    InstallError,
>)
    ensures
        match *home {
            Some(directory) => r matches Ok(root) && root@ == match text::opt_view(*given) {
                Some(text) => text,
                None => paths::joined(directory@, ".local"@),
            },
            None => r == Err::<String, InstallError>(InstallError::NoHome),
        },
{
    match home {
        Some(directory) => match given {
            Some(text) => Ok(text.clone()),
            None => Ok(join_path(directory.as_str(), ".local")),
        },
        None => Err(InstallError::NoHome),
    }
}

/// A build that is installed under a name of its own.
#[derive(Debug)]
pub struct ManagedBuild {
    pub build_id: String,
    pub directory: String,
    pub executable: String,
}

/// The name of a build: its version, and the start of its fingerprint.
pub open spec fn build_name(version: Seq<char>, fingerprint: Seq<char>) -> Seq<char> {
    version + "-"@ + text::head(fingerprint, 16)
}

/// The directory that holds the builds.
pub open spec fn builds_below(install_root: Seq<char>) -> Seq<char> {
    paths::joined(install_root, "share/resync/bin"@)
}

/// The directory that holds the builds.
pub fn builds_directory(install_root: &str) -> (r: String)
    ensures
        r@ == builds_below(install_root@),
{
    join_path(install_root, "share/resync/bin")
}

/// Where a build with a fingerprint is installed.
pub fn managed_build(version: &str, fingerprint: &str, install_root: &str) -> (r: ManagedBuild)
    requires
        fingerprint@.len() >= 16,
    ensures
        r.build_id@ == build_name(version@, fingerprint@),
        r.directory@ == paths::joined(builds_below(install_root@), build_name(version@, fingerprint@)),
        r.executable@ == paths::joined(r.directory@, "resync"@),
{
    let start = head_text(fingerprint, 16);
    let build_id = cat3(version, "-", start.as_str());
    let builds = builds_directory(install_root);
    let directory = join_path(builds.as_str(), build_id.as_str());
    let executable = join_path(directory.as_str(), "resync");
    ManagedBuild { build_id, directory, executable }
}

/// Whether a build is to be copied: what is at its place, if anything, is something else.
pub fn must_stage(existing: &Option<String>, fingerprint: &str) -> (r: bool)
    ensures
        r == (text::opt_view(*existing) != Some(fingerprint@)),
{
    match existing {
        Some(found) => !same_text(found.as_str(), fingerprint),
        None => true,
    }
}

/// Whether the copy of a build is the build.
pub fn check_staged(copied: &str, fingerprint: &str) -> (r: Result<(), InstallError>)
    ensures
        match r {
            Ok(_) => copied@ == fingerprint@,
            Err(e) => copied@ != fingerprint@ && e == InstallError::Damaged,
        },
{
    if same_text(copied, fingerprint) {
        Ok(())
    } else {
        Err(InstallError::Damaged)
    }
}

/// Whether the program that activates a build is that build, by the places where they lie.
pub fn check_activation(current: &str, staged: &str) -> (r: Result<(), InstallError>)
    ensures
        match r {
            Ok(_) => paths::same_place(current@, staged@),
            Err(e) => !paths::same_place(current@, staged@) && e == InstallError::NotStaged,
        },
{
    if same_path(current, staged) {
        Ok(())
    } else {
        Err(InstallError::NotStaged)
    }
}

/// Whether the daemon that answered is the build that was put in place.
pub fn check_daemon(ping: &Json, fingerprint: &str) -> (r: Result<(), InstallError>)
    ensures
        match r {
            Ok(_) => json::text_field(*ping, "binaryId"@) == Some(fingerprint@),
            Err(e) => json::text_field(*ping, "binaryId"@) != Some(fingerprint@) && e
                == InstallError::NotActivated,
        },
{
    if daemon_matches_client(ping, fingerprint) {
        Ok(())
    } else {
        Err(InstallError::NotActivated)
    }
}

/// Whether an executable that a process runs lies in a build.
pub open spec fn is_referenced(build: Seq<char>, running: Seq<Seq<char>>) -> bool {
    exists|i: int| 0 <= i < running.len() && paths::is_under(#[trigger] running[i], build)
}

fn referenced(build: &str, running: &Vec<String>) -> (r: bool)
    ensures
        r == is_referenced(build@, text::views(running@)),
{
    let ghost all = text::views(running@);
    let mut i: usize = 0;
    while i < running.len()
        invariant
            0 <= i <= running.len(),
            all == text::views(running@),
            forall|j: int| 0 <= j < i ==> !paths::is_under(#[trigger] all[j], build@),
        decreases running.len() - i,
    {
        assert(all[i as int] == running@[i as int]@);
        if starts_with_path(running[i].as_str(), build) {
            assert(paths::is_under(text::views(running@)[i as int], build@));
            return true;
        }
        i += 1;
    }
    false
}

/// Whether a build is left over once another one is kept.
pub open spec fn is_obsolete(entries: Seq<Seq<char>>, keep: Seq<char>, build: Seq<char>) -> bool {
    entries.contains(build) && !paths::same_place(build, keep)
}

/// The builds to remove, in order: all but the one that is kept. None is removed while a process
/// runs one of them.
pub fn prune_managed_builds(
    entries: &Vec<String>,
    keep_executable: &str,
    running: &Vec<String>,
) -> (r: Result<Vec<String>, InstallError>)
    ensures
        match paths::parent(keep_executable@) {
            None => r == Err::<Vec<String>, InstallError>(InstallError::NoParent),
            Some(keep) => match r {
                Ok(list) => {
                    &&& text::increasing(text::views(list@))
                    &&& forall|b: Seq<char>| #[trigger]
                        text::views(list@).contains(b) <==> is_obsolete(text::views(entries@), keep, b)
                    &&& forall|b: Seq<char>| #[trigger]
                        is_obsolete(text::views(entries@), keep, b) ==> !is_referenced(
                            b,
                            text::views(running@),
                        )
                },
                Err(e) => e matches InstallError::Referenced(build) && is_obsolete(
                    text::views(entries@),
                    keep,
                    build@,
                ) && is_referenced(build@, text::views(running@)) && forall|b: Seq<char>| #[trigger]
                    is_obsolete(text::views(entries@), keep, b) && text::text_less(b, build@)
                        ==> !is_referenced(b, text::views(running@)),
            },
        },
{
    let keep = match parent_of(keep_executable) {
        Some(keep) => keep,
        None => {
            return Err(InstallError::NoParent);
        },
    };
    let ghost all = text::views(entries@);
    let mut list: Vec<String> = Vec::new();
    let mut i: usize = 0;
    assert(text::views(list@) =~= Seq::empty());
    assert(all.take(0) =~= Seq::empty());
    while i < entries.len()
        invariant
            0 <= i <= entries.len(),
            all == text::views(entries@),
            text::increasing(text::views(list@)),
            forall|b: Seq<char>| #[trigger]
                text::views(list@).contains(b) <==> is_obsolete(all.take(i as int), keep@, b),
        decreases entries.len() - i,
    {
        let ghost before = all.take(i as int);
        let ghost now = all.take(i + 1);
        let ghost item = entries@[i as int]@;
        assert(now =~= before.push(item));
        assert forall|b: Seq<char>| #[trigger] now.contains(b) <==> before.contains(b) || b
            == item by {
            if before.contains(b) {
                let j = choose|j: int| 0 <= j < before.len() && before[j] == b;
                assert(now[j] == b);
            }
            if b == item {
                assert(now[i as int] == b);
            }
            if now.contains(b) {
                let j = choose|j: int| 0 <= j < now.len() && now[j] == b;
                if j < i {
                    assert(before[j] == b);
                }
            }
        }
        if !same_path(entries[i].as_str(), keep.as_str()) {
            insert_ordered(&mut list, entries[i].as_str());
        }
        i += 1;
    }
    assert(all.take(i as int) =~= all);
    let ghost found = text::views(list@);
    let mut k: usize = 0;
    while k < list.len()
        invariant
            0 <= k <= list.len(),
            found == text::views(list@),
            text::increasing(found),
            paths::parent(keep_executable@) == Some(keep@),
            forall|b: Seq<char>| #[trigger]
                found.contains(b) <==> is_obsolete(text::views(entries@), keep@, b),
            forall|j: int| 0 <= j < k ==> !is_referenced(#[trigger] found[j], text::views(running@)),
        decreases list.len() - k,
    {
        assert(found[k as int] == list@[k as int]@);
        if referenced(list[k].as_str(), running) {
            let build = list[k].clone();
            proof {
                assert(found.contains(build@));
                assert forall|b: Seq<char>| #[trigger]
                    is_obsolete(text::views(entries@), keep@, b) && text::text_less(
                        b,
                        build@,
                    ) implies !is_referenced(b, text::views(running@)) by {
                    assert(found.contains(b));
                    let j = choose|j: int| 0 <= j < found.len() && found[j] == b;
                    if j == k {
                        text::lemma_text_less_irreflexive(b);
                    } else if j > k {
                        text::lemma_text_less_asymmetric(b, build@);
                    }
                }
            }
            return Err(InstallError::Referenced(build));
        }
        k += 1;
    }
    assert forall|b: Seq<char>| #[trigger]
        is_obsolete(text::views(entries@), keep@, b) implies !is_referenced(b, text::views(running@)) by {
        assert(found.contains(b));
        let j = choose|j: int| 0 <= j < found.len() && found[j] == b;
        assert(!is_referenced(found[j], text::views(running@)));
    }
    Ok(list)
}

/// Whether a directory of the kernel is that of a process: its name has digits only.
pub fn is_process_directory(name: &str) -> (r: bool)
    ensures
        r == forall|i: int| 0 <= i < name@.len() ==> text::digit_value(#[trigger] name@[i]) is Some,
{
    let c = chars_of(name);
    let mut i: usize = 0;
    while i < c.len()
        invariant
            0 <= i <= c.len(),
            c@ == name@,
            forall|j: int| 0 <= j < i ==> text::digit_value(#[trigger] name@[j]) is Some,
        decreases c.len() - i,
    {
        let n: u32 = c[i] as u32;
        if n < 48 || n > 57 {
            assert(text::digit_value(name@[i as int]) is None);
            return false;
        }
        i += 1;
    }
    true
}

/// An installation by a package manager of a time when the program was a package.
#[derive(Debug, Clone, PartialEq, Eq)]
pub enum LegacyInstall {
    /// With the Node version at a path.
    Node(String),
    /// Below a prefix.
    Prefix(String),
    /// With Vite Plus.
    VitePlus,
}

/// The name of the package.
pub open spec fn package_name() -> Seq<char> {
    "@tyrlabs-ai/resync"@
}

/// The file that shows that an installation is there.
pub open spec fn manifest_of(install: LegacyInstall) -> Option<Seq<char>> {
    match install {
        LegacyInstall::Node(path) => Some(
            paths::joined(path@, "lib/node_modules/@tyrlabs-ai/resync/package.json"@),
        ),
        LegacyInstall::Prefix(path) => Some(
            paths::joined(path@, "lib/node_modules/@tyrlabs-ai/resync/package.json"@),
        ),
        LegacyInstall::VitePlus => None,
    }
}

/// The file that shows that an installation is there.
pub fn legacy_manifest(install: &LegacyInstall) -> (r: Option<String>)
    ensures
        text::opt_view(r) == manifest_of(*install),
{
    match install {
        LegacyInstall::Node(path) => Some(
            join_path(path.as_str(), "lib/node_modules/@tyrlabs-ai/resync/package.json"),
        ),
        LegacyInstall::Prefix(path) => Some(
            join_path(path.as_str(), "lib/node_modules/@tyrlabs-ai/resync/package.json"),
        ),
        LegacyInstall::VitePlus => None,
    }
}

/// A program with the words that it is called with.
#[derive(Debug)]
pub struct ProgramCall {
    pub program: String,
    pub arguments: Vec<String>,
}

/// The words that remove an installation, the program first.
pub open spec fn removal_words(install: LegacyInstall) -> Seq<Seq<char>> {
    match install {
        LegacyInstall::Node(path) => seq![
            paths::joined(path@, "bin/npm"@),
            "uninstall"@,
            "--global"@,
            package_name(),
        ],
        LegacyInstall::Prefix(path) => seq![
            "npm"@,
            "--prefix"@,
            path@,
            "uninstall"@,
            "--global"@,
            package_name(),
        ],
        LegacyInstall::VitePlus => seq!["vp"@, "remove"@, "--global"@, package_name()],
    }
}

/// How an installation is removed.
pub fn legacy_removal(install: &LegacyInstall) -> (r: ProgramCall)
    ensures
        seq![r.program@] + text::views(r.arguments@) == removal_words(*install),
{
    let r = match install {
        LegacyInstall::Node(path) => ProgramCall {
            program: join_path(path.as_str(), "bin/npm"),
            arguments: words3("uninstall", "--global", "@tyrlabs-ai/resync"),
        },
        LegacyInstall::Prefix(path) => ProgramCall {
            program: "npm".to_owned(),
            arguments: words5(
                "--prefix",
                path.as_str(),
                "uninstall",
                "--global",
                "@tyrlabs-ai/resync",
            ),
        },
        LegacyInstall::VitePlus => ProgramCall {
            program: "vp".to_owned(),
            arguments: words3("remove", "--global", "@tyrlabs-ai/resync"),
        },
    };
    assert(seq![r.program@] + text::views(r.arguments@) =~= removal_words(*install));
    r
}

/// Whether Vite Plus lists the package.
pub fn vite_plus_lists(output: &str) -> (r: bool)
    ensures
        r == text::has_part(output@, package_name()),
{
    contains_text(output, "@tyrlabs-ai/resync")
}

/// How the removal of an installation is reported: what was removed, or why it stays. `remains` is
/// whether the file that shows it is still there.
pub fn remove_legacy_package_installs(
    install: &LegacyInstall,
    result: &RunResult,
    remains: bool,
) -> (r: Result<String, InstallError>)
    ensures
        match *install {
            LegacyInstall::Node(path) => if result.code == 0 && !remains {
                r matches Ok(label) && label@ == "npm:"@ + path@
            } else {
                r matches Err(e) && (e matches InstallError::NodeRemains(at, reason) && Some(at@)
                    == manifest_of(*install) && reason@ == text::trim(result.stderr@))
            },
            LegacyInstall::Prefix(path) => if result.code == 0 && !remains {
                r matches Ok(label) && label@ == "npm-prefix:"@ + path@
            } else {
                r matches Err(e) && (e matches InstallError::PrefixRemains(at, reason) && Some(
                    at@,
                ) == manifest_of(*install) && reason@ == text::trim(result.stderr@))
            },
            LegacyInstall::VitePlus => if result.code == 0 {
                r matches Ok(label) && label@ == "vite-plus"@
            } else {
                r matches Err(e) && e == InstallError::VitePlusRemains
            },
        },
{
    match install {
        LegacyInstall::Node(path) => {
            if result.code != 0 || remains {
                let at = join_path(
                    path.as_str(),
                    "lib/node_modules/@tyrlabs-ai/resync/package.json",
                );
                return Err(InstallError::NodeRemains(at, trimmed(result.stderr.as_str())));
            }
            Ok(cat2("npm:", path.as_str()))
        },
        LegacyInstall::Prefix(path) => {
            if result.code != 0 || remains {
                let at = join_path(
                    path.as_str(),
                    "lib/node_modules/@tyrlabs-ai/resync/package.json",
                );
                return Err(InstallError::PrefixRemains(at, trimmed(result.stderr.as_str())));
            }
            Ok(cat2("npm-prefix:", path.as_str()))
        },
        LegacyInstall::VitePlus => {
            if result.code != 0 {
                return Err(InstallError::VitePlusRemains);
            }
            Ok("vite-plus".to_owned())
        },
    }
}

/// Something that was found of the builds on this machine. Paths are canonical.
#[derive(Debug, Clone, PartialEq, Eq)]
pub enum HealthFact {
    /// What the launcher leads to.
    Launcher(String),
    /// The number of builds that are installed.
    Builds(u64),
    /// The fingerprint that the daemon names.
    Daemon(Option<String>),
    /// The executable that the daemon runs.
    Process(String),
    /// A program of this name that a shell would find.
    Candidate(String),
    /// Whether an older installation below the prefix is there.
    PrefixManifest(bool),
    /// Whether an older installation with some Node version is there.
    NodeManifest(bool),
}

/// Whether something that was found fits with one single build.
pub open spec fn is_healthy(
    current: Seq<char>,
    fingerprint: Seq<char>,
    fact: HealthFact,
) -> bool {
    match fact {
        HealthFact::Launcher(path) => paths::same_place(path@, current),
        HealthFact::Builds(n) => n == 1,
        HealthFact::Daemon(id) => text::opt_view(id) == Some(fingerprint),
        HealthFact::Process(path) => paths::same_place(path@, current),
        HealthFact::Candidate(path) => paths::same_place(path@, current),
        HealthFact::PrefixManifest(there) => !there,
        HealthFact::NodeManifest(there) => !there,
    }
}

/// What is wrong with something that was found.
pub open spec fn health_complaint(fact: HealthFact) -> Seq<char> {
    match fact {
        HealthFact::Launcher(_) => {
            "stable launcher and current executable resolve to different builds"@
        },
        HealthFact::Builds(n) => "managed build cache contains "@ + text::decimal(n as nat)
            + " RepoSync builds"@,
        HealthFact::Daemon(_) => "daemon and stable launcher have different build identities"@,
        HealthFact::Process(_) => {
            "daemon executable and stable launcher resolve to different builds"@
        },
        HealthFact::Candidate(_) => "PATH contains a different RepoSync executable"@,
        HealthFact::PrefixManifest(_) => {
            "obsolete npm RepoSync installation remains under the install prefix"@
        },
        HealthFact::NodeManifest(_) => "obsolete NVM RepoSync installation remains"@,
    }
}

fn healthy(current: &str, fingerprint: &str, fact: &HealthFact) -> (r: bool)
    ensures
        r == is_healthy(current@, fingerprint@, *fact),
{
    match fact {
        HealthFact::Launcher(path) => same_path(path.as_str(), current),
        HealthFact::Builds(n) => *n == 1,
        HealthFact::Daemon(id) => match id {
            Some(text) => same_text(text.as_str(), fingerprint),
            None => false,
        },
        HealthFact::Process(path) => same_path(path.as_str(), current),
        HealthFact::Candidate(path) => same_path(path.as_str(), current),
        HealthFact::PrefixManifest(there) => !*there,
        HealthFact::NodeManifest(there) => !*there,
    }
}

fn complaint(fact: &HealthFact) -> (r: String)
    ensures
        r@ == health_complaint(*fact),
{
    match fact {
        HealthFact::Launcher(_) => {
            "stable launcher and current executable resolve to different builds".to_owned()
        },
        HealthFact::Builds(n) => {
            let count = decimal_text(*n);
            cat3("managed build cache contains ", count.as_str(), " RepoSync builds")
        },
        HealthFact::Daemon(_) => {
            "daemon and stable launcher have different build identities".to_owned()
        },
        HealthFact::Process(_) => {
            "daemon executable and stable launcher resolve to different builds".to_owned()
        },
        HealthFact::Candidate(_) => "PATH contains a different RepoSync executable".to_owned(),
        HealthFact::PrefixManifest(_) => {
            "obsolete npm RepoSync installation remains under the install prefix".to_owned()
        },
        HealthFact::NodeManifest(_) => "obsolete NVM RepoSync installation remains".to_owned(),
    }
}

/// Whether there is one single build of the program on this machine, by what was found, in order:
/// which one it is, or the first thing that is wrong.
pub fn single_build_health(current: &str, fingerprint: &str, facts: &Vec<HealthFact>) -> (r: Result<
    String,
    String,
>)
    ensures
        match r {
            Ok(detail) => detail@ == current@ + " ("@ + fingerprint@ + ")"@ && forall|i: int|
                0 <= i < facts.len() ==> is_healthy(current@, fingerprint@, #[trigger] facts@[i]),
            Err(words) => exists|i: int|
                0 <= i < facts.len() && !is_healthy(
                    current@,
                    fingerprint@,
                    #[trigger] facts@[i],
                ) && words@ == health_complaint(facts@[i]) && forall|j: int|
                    0 <= j < i ==> is_healthy(current@, fingerprint@, #[trigger] facts@[j]),
        },
{
    let mut i: usize = 0;
    while i < facts.len()
        invariant
            0 <= i <= facts.len(),
            forall|j: int|
                0 <= j < i ==> is_healthy(current@, fingerprint@, #[trigger] facts@[j]),
        decreases facts.len() - i,
    {
        if !healthy(current, fingerprint, &facts[i]) {
            return Err(complaint(&facts[i]));
        }
        i += 1;
    }
    Ok(cat4(current, " (", fingerprint, ")"))
}

/// Once the obsolete builds are removed, none is left to remove: an upgrade that is repeated
/// prunes nothing.
pub proof fn law_pruning_is_final(
    entries: Seq<Seq<char>>,
    left: Seq<Seq<char>>,
    keep: Seq<char>,
    build: Seq<char>,
)
    requires
        forall|b: Seq<char>| #[trigger]
            left.contains(b) <==> entries.contains(b) && !is_obsolete(entries, keep, b),
    ensures
        !is_obsolete(left, keep, build),
{
    if left.contains(build) {
        assert(!is_obsolete(entries, keep, build));
    }
}

} // verus!
