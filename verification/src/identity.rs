//! Which hosted project a checkout belongs to.
use vstd::prelude::*;
use crate::credentials;
use crate::digest;
use crate::git_state;
use crate::process;
use crate::random;
use crate::text;
use crate::transaction;
use crate::credentials::{canonical_origin, CredentialError};
use crate::process::{
    git_lenient, git_strict, words2, words4, GitCall, GitCallView, Next, RunResult, RunResultView,
};
use crate::random::tagged;
use crate::text::{copy_option, same_text, trimmed};

verus! {

/// The project and the checkout that a worktree is.
#[derive(Debug, Clone, PartialEq, Eq)]
pub struct Identity {
    pub root: String,
    pub service: Option<String>,
    pub project_id: Option<String>,
    pub checkout_id: Option<String>,
}

/// What a [`Identity`] holds.
pub struct IdentityView {
    pub root: Seq<char>,
    pub service: Option<Seq<char>>,
    pub project_id: Option<Seq<char>>,
    pub checkout_id: Option<Seq<char>>,
}

impl View for Identity {
    type V = IdentityView;

    open spec fn view(&self) -> IdentityView {
        IdentityView {
            root: self.root@,
            service: text::opt_view(self.service),
            project_id: text::opt_view(self.project_id),
            checkout_id: text::opt_view(self.checkout_id),
        }
    }
}

impl Identity {
    /// A second value with the same contents.
    pub fn copy(&self) -> (r: Self)
        ensures
            r@ == self@,
    {
        Identity {
            root: self.root.clone(),
            service: copy_option(&self.service),
            project_id: copy_option(&self.project_id),
            checkout_id: copy_option(&self.checkout_id),
        }
    }
}

/// Why an identity could not be read or written.
#[derive(Debug, Clone, PartialEq, Eq)]
pub enum IdentityError {
    /// Not inside of a worktree.
    NotWorktree,
    /// The service or the project is there without the other.
    Incomplete,
    /// The service is not accepted.
    Service(CredentialError),
}

/// What an [`IdentityError`] says.
pub open spec fn identity_text(e: IdentityError) -> Seq<char> {
    match e {
        IdentityError::NotWorktree => "this command must run inside a Git worktree"@,
        IdentityError::Incomplete => "incomplete RepoSync identity in local Git configuration"@,
        IdentityError::Service(inner) => credentials::credential_text(inner),
    }
}

impl IdentityError {
    /// The message of the error.
    pub fn message(&self) -> (r: String)
        ensures
            r@ == identity_text(*self),
    {
        match self {
            IdentityError::NotWorktree => "this command must run inside a Git worktree".to_owned(),
            IdentityError::Incomplete => {
                "incomplete RepoSync identity in local Git configuration".to_owned()
            },
            IdentityError::Service(inner) => inner.message(),
        }
    }
}

/// The top of the worktree that a path is in.
pub fn repository_root(path: &str, runs: &Vec<RunResult>) -> (r: Result<
    Next<String>,
    IdentityError,
>)
    ensures
        match r {
            Ok(Next::Run(call)) => runs.len() == 0 && call@ == process::git_try(
                path@,
                seq!["rev-parse"@, "--show-toplevel"@],
            ),
            Ok(Next::Done(root)) => runs.len() > 0 && runs@[0].code == 0 && root@ == text::trim(
                runs@[0].stdout@,
            ),
            Err(e) => runs.len() > 0 && runs@[0].code != 0 && e == IdentityError::NotWorktree,
        },
{
    if runs.len() == 0 {
        return Ok(Next::Run(git_lenient(path, words2("rev-parse", "--show-toplevel"))));
    }
    if runs[0].code != 0 {
        return Err(IdentityError::NotWorktree);
    }
    Ok(Next::Done(trimmed(runs[0].stdout.as_str())))
}

/// A setting of the repository, where it is set.
pub open spec fn setting(result: RunResultView) -> Option<Seq<char>> {
    if result.code == 0 {
        Some(text::trim(result.stdout))
    } else {
        None
    }
}

fn local_config(result: &RunResult) -> (r: Option<String>)
    ensures
        text::opt_view(r) == setting(result@),
{
    if result.code == 0 {
        Some(trimmed(result.stdout.as_str()))
    } else {
        None
    }
}

/// The command that the reading of an identity runs after those whose results are given.
pub open spec fn identity_call(path: Seq<char>, done: Seq<RunResultView>) -> GitCallView {
    if done.len() == 0 {
        process::git_try(path, seq!["rev-parse"@, "--show-toplevel"@])
    } else {
        process::git_try(
            text::trim(done[0].stdout),
            seq![
                "config"@,
                "--local"@,
                "--get"@,
                if done.len() == 1 {
                    "resync.service"@
                } else if done.len() == 2 {
                    "resync.projectId"@
                } else {
                    "resync.checkoutId"@
                },
            ],
        )
    }
}

/// The identity that the four results of a reading make up; the service is given by its origin.
pub open spec fn identity_read(
    done: Seq<RunResultView>,
    origin: Option<Seq<char>>,
) -> IdentityView {
    IdentityView {
        root: text::trim(done[0].stdout),
        service: origin,
        project_id: setting(done[2]),
        checkout_id: setting(done[3]),
    }
}

/// Reads the identity of the worktree that a path is in.
pub fn read_identity(path: &str, runs: &Vec<RunResult>) -> (r: Result<
    Next<Identity>,
    IdentityError,
>)
    ensures
        ({
            let done = git_state::results(runs@);
            let outside = done.len() > 0 && done[0].code != 0;
            let complete = done.len() >= 4 && !outside;
            let service = setting(done[1]);
            let half = (service is Some) != (setting(done[2]) is Some);
            match r {
                Ok(Next::Run(call)) => !outside && !complete && call@ == identity_call(path@, done),
                Ok(Next::Done(identity)) => {
                    &&& complete
                    &&& !half
                    &&& service is None ==> identity@ == identity_read(done, None)
                    &&& service is Some ==> credentials::origin_of(service->0) is Some && identity@
                        == identity_read(done, credentials::origin_of(service->0))
                },
                Err(IdentityError::NotWorktree) => outside,
                Err(IdentityError::Incomplete) => complete && half,
                Err(IdentityError::Service(e)) => complete && !half && service is Some
                    && credentials::is_refusal(service->0, e),
            }
        }),
{
    let ghost done = git_state::results(runs@);
    assert(forall|i: int| 0 <= i < runs.len() ==> #[trigger] done[i] == runs@[i]@);
    if runs.len() == 0 {
        return Ok(Next::Run(git_lenient(path, words2("rev-parse", "--show-toplevel"))));
    }
    if runs[0].code != 0 {
        return Err(IdentityError::NotWorktree);
    }
    let root = trimmed(runs[0].stdout.as_str());
    if runs.len() < 4 {
        let key = if runs.len() == 1 {
            "resync.service"
        } else if runs.len() == 2 {
            "resync.projectId"
        } else {
            "resync.checkoutId"
        };
        return Ok(
            Next::Run(git_lenient(root.as_str(), words4("config", "--local", "--get", key))),
        );
    }
    let service = local_config(&runs[1]);
    let project_id = local_config(&runs[2]);
    let checkout_id = local_config(&runs[3]);
    if service.is_some() != project_id.is_some() {
        return Err(IdentityError::Incomplete);
    }
    match service {
        None => Ok(Next::Done(Identity { root, service: None, project_id, checkout_id })),
        Some(value) => match canonical_origin(value.as_str()) {
            Ok(origin) => Ok(
                Next::Done(Identity { root, service: Some(origin), project_id, checkout_id }),
            ),
            Err(e) => Err(IdentityError::Service(e)),
        },
    }
}

/// The commands that write an identity.
pub open spec fn write_calls(
    root: Seq<char>,
    service: Seq<char>,
    project_id: Seq<char>,
    checkout_id: Seq<char>,
) -> Seq<GitCallView> {
    seq![
        process::git_in(root, seq!["config"@, "--local"@, "resync.service"@, service]),
        process::git_in(root, seq!["config"@, "--local"@, "resync.projectId"@, project_id]),
        process::git_in(root, seq!["config"@, "--local"@, "resync.checkoutId"@, checkout_id]),
    ]
}

/// An identity that is to be written, with the commands that write it.
#[derive(Debug)]
pub struct NewIdentity {
    pub identity: Identity,
    pub calls: Vec<GitCall>,
}

/// An identity with all of its parts, and the commands that write it.
pub fn complete_identity(root: &str, origin: &str, project_id: &str, checkout_id: &str) -> (r:
    NewIdentity)
    ensures
        r.identity@ == (IdentityView {
            root: root@,
            service: Some(origin@),
            project_id: Some(project_id@),
            checkout_id: Some(checkout_id@),
        }),
        transaction::calls(r.calls@) == write_calls(root@, origin@, project_id@, checkout_id@),
{
    let list = vec![
        git_strict(root, words4("config", "--local", "resync.service", origin)),
        git_strict(root, words4("config", "--local", "resync.projectId", project_id)),
        git_strict(root, words4("config", "--local", "resync.checkoutId", checkout_id)),
    ];
    assert(transaction::calls(list@) =~= write_calls(root@, origin@, project_id@, checkout_id@));
    NewIdentity {
        identity: Identity {
            root: root.to_owned(),
            service: Some(origin.to_owned()),
            project_id: Some(project_id.to_owned()),
            checkout_id: Some(checkout_id.to_owned()),
        },
        calls: list,
    }
}

/// A reading gives an identity.
pub open spec fn reads(done: Seq<RunResultView>, identity: IdentityView) -> bool {
    &&& setting(done[1]) is Some
    &&& identity_read(done, credentials::origin_of(setting(done[1])->0)) == identity
}

/// Every reading after these commands, whatever the settings were before, gives an identity.
pub open spec fn is_read_back(identity: IdentityView, calls: Seq<GitCallView>) -> bool {
    forall|settings: Map<Seq<char>, Seq<char>>, done: Seq<RunResultView>| #[trigger]
        is_reading(settings_replayed(settings, calls), identity.root, done) ==> reads(
            done,
            identity,
        )
}

proof fn lemma_tagged_is_tight(id: Seq<char>)
    requires
        random::is_tagged(id, "chk_"@, 32),
    ensures
        text::is_tight(id),
{
    reveal_strlit("chk_");
    let digits = id.skip("chk_"@.len() as int);
    assert(id[0] == "chk_"@[0]);
    assert(id.last() == digits[31]);
    assert(digest::is_hex(digits[31]));
}

/// Gives a worktree an identity; without an identifier of its own the checkout gets a new one.
/// What is written is read back, where the host of the service is no internationalized one and what
/// is given has no whitespace at its ends.
pub fn write_identity(
    root: &str,
    service: &str,
    project_id: &str,
    checkout_id: &Option<String>,
) -> (r: Result<NewIdentity, IdentityError>)
    ensures
        match r {
            Ok(new) => {
                &&& credentials::origin_of(service@) == new.identity@.service
                &&& new.identity@.service is Some
                &&& new.identity@.root == root@
                &&& new.identity@.project_id == Some(project_id@)
                &&& new.identity@.checkout_id is Some
                &&& checkout_id is Some ==> new.identity@.checkout_id == text::opt_view(*checkout_id)
                &&& checkout_id is None ==> random::is_tagged(
                    new.identity@.checkout_id->0,
                    "chk_"@,
                    32,
                )
                &&& transaction::calls(new.calls@) == write_calls(
                    root@,
                    new.identity@.service->0,
                    project_id@,
                    new.identity@.checkout_id->0,
                )
                &&& credentials::is_plain_provider(service@) && text::is_tight(project_id@) && (
                checkout_id is Some ==> text::is_tight(checkout_id->0@)) ==> is_read_back(
                    new.identity@,
                    transaction::calls(new.calls@),
                )
            },
            Err(e) => e matches IdentityError::Service(inner) && credentials::is_refusal(
                service@,
                inner,
            ),
        },
{
    let origin = match canonical_origin(service) {
        Ok(origin) => origin,
        Err(e) => {
            return Err(IdentityError::Service(e));
        },
    };
    let checkout = match checkout_id {
        Some(id) => id.clone(),
        None => tagged("chk_"),
    };
    let new = complete_identity(root, origin.as_str(), project_id, checkout.as_str());
    proof {
        if credentials::is_plain_provider(service@) && text::is_tight(project_id@) && (checkout_id
            is Some ==> text::is_tight(checkout_id->0@)) {
            if checkout_id is None {
                lemma_tagged_is_tight(checkout@);
            }
            let calls = write_calls(root@, origin@, project_id@, checkout@);
            assert forall|settings: Map<Seq<char>, Seq<char>>, done: Seq<RunResultView>| #[trigger]
                is_reading(settings_replayed(settings, calls), root@, done) implies reads(
                done,
                new.identity@,
            ) by {
                law_written_identity_is_read(
                    settings,
                    root@,
                    origin@,
                    project_id@,
                    checkout@,
                    done,
                );
            }
        }
    }
    Ok(new)
}

/// The commands that remove an identity, whether it is there or not.
pub open spec fn clear_calls(root: Seq<char>) -> Seq<GitCallView> {
    seq![
        process::git_try(root, seq!["config"@, "--local"@, "--unset-all"@, "resync.service"@]),
        process::git_try(root, seq!["config"@, "--local"@, "--unset-all"@, "resync.projectId"@]),
        process::git_try(root, seq!["config"@, "--local"@, "--unset-all"@, "resync.checkoutId"@]),
    ]
}

/// The commands that remove the identity of a worktree.
pub fn clear_identity(root: &str) -> (r: Vec<GitCall>)
    ensures
        transaction::calls(r@) == clear_calls(root@),
{
    let r = vec![
        git_lenient(root, words4("config", "--local", "--unset-all", "resync.service")),
        git_lenient(root, words4("config", "--local", "--unset-all", "resync.projectId")),
        git_lenient(root, words4("config", "--local", "--unset-all", "resync.checkoutId")),
    ];
    assert(transaction::calls(r@) =~= clear_calls(root@));
    r
}

/// Whether two identities are complete, with services that are accepted.
pub open spec fn comparable(left: IdentityView, right: IdentityView) -> bool {
    left.service is Some && left.project_id is Some && right.service is Some && right.project_id
        is Some
}

/// Whether two checkouts belong to the same project: their services have the same origin, and
/// their projects the same identifier.
pub open spec fn are_same_project(left: IdentityView, right: IdentityView) -> bool {
    comparable(left, right) && credentials::origin_of(left.service->0) == credentials::origin_of(right.service->0)
        && left.project_id == right.project_id
}

/// Whether an error is the one for the first of two services that is not accepted.
pub open spec fn refuses_either(left: Seq<char>, right: Seq<char>, e: CredentialError) -> bool {
    if credentials::origin_of(left) is None {
        credentials::is_refusal(left, e)
    } else {
        credentials::is_refusal(right, e)
    }
}

/// Whether two checkouts belong to the same project; an incomplete one belongs to none.
pub fn same_project(left: &Identity, right: &Identity) -> (r: Result<bool, IdentityError>)
    ensures
        match r {
            Ok(same) => same == are_same_project(left@, right@) && (comparable(left@, right@)
                ==> credentials::origin_of(left@.service->0) is Some && credentials::origin_of(right@.service->0) is Some),
            Err(e) => comparable(left@, right@) && (e matches IdentityError::Service(inner)
                && refuses_either(left@.service->0, right@.service->0, inner)),
        },
{
    match (&left.service, &left.project_id, &right.service, &right.project_id) {
        (Some(a), Some(b), Some(c), Some(d)) => {
            let first = match canonical_origin(a.as_str()) {
                Ok(origin) => origin,
                Err(e) => {
                    return Err(IdentityError::Service(e));
                },
            };
            let second = match canonical_origin(c.as_str()) {
                Ok(origin) => origin,
                Err(e) => {
                    return Err(IdentityError::Service(e));
                },
            };
            Ok(
                same_text(first.as_str(), second.as_str()) && same_text(
                    b.as_str(),
                    d.as_str(),
                ),
            )
        },
        _ => Ok(false),
    }
}

/// To belong to the same project is symmetric and transitive, and does not depend on the checkout.
pub proof fn law_same_project(a: IdentityView, b: IdentityView, c: IdentityView)
    requires
        are_same_project(a, b),
    ensures
        are_same_project(b, a),
        are_same_project(b, c) ==> are_same_project(a, c),
        forall|id: Option<Seq<char>>|
            #[trigger] are_same_project(IdentityView { checkout_id: id, ..a }, b),
{
}

/// The settings of a repository after a command, under their names: one that sets a setting gives
/// it a value, one that unsets it takes all values away, and every other one leaves them.
pub open spec fn settings_after(
    settings: Map<Seq<char>, Seq<char>>,
    call: GitCallView,
) -> Map<Seq<char>, Seq<char>> {
    let args = call.args;
    if args.len() == 4 && args[0] == "config"@ && args[1] == "--local"@ && args[2] != "--get"@ {
        if args[2] == "--unset-all"@ {
            settings.remove(args[3])
        } else {
            settings.insert(args[2], args[3])
        }
    } else {
        settings
    }
}

/// The settings of a repository after commands.
pub open spec fn settings_replayed(
    settings: Map<Seq<char>, Seq<char>>,
    calls: Seq<GitCallView>,
) -> Map<Seq<char>, Seq<char>>
    decreases calls.len(),
{
    if calls.len() == 0 {
        settings
    } else {
        settings_after(settings_replayed(settings, calls.drop_last()), calls.last())
    }
}

/// What a repository with settings says of one of them: its value on a line, or nothing.
pub open spec fn tells(
    settings: Map<Seq<char>, Seq<char>>,
    name: Seq<char>,
    result: RunResultView,
) -> bool {
    if settings.contains_key(name) {
        result.code == 0 && result.stdout == settings[name] + "\n"@
    } else {
        result.code != 0
    }
}

/// The results of a reading in a worktree of a repository with settings.
pub open spec fn is_reading(
    settings: Map<Seq<char>, Seq<char>>,
    root: Seq<char>,
    done: Seq<RunResultView>,
) -> bool {
    &&& done.len() == 4
    &&& done[0].code == 0
    &&& text::trim(done[0].stdout) == root
    &&& tells(settings, "resync.service"@, done[1])
    &&& tells(settings, "resync.projectId"@, done[2])
    &&& tells(settings, "resync.checkoutId"@, done[3])
}

proof fn lemma_setting_names()
    ensures
        "resync.service"@ != "resync.projectId"@,
        "resync.service"@ != "resync.checkoutId"@,
        "resync.projectId"@ != "resync.checkoutId"@,
        "resync.service"@ != "--get"@,
        "resync.projectId"@ != "--get"@,
        "resync.checkoutId"@ != "--get"@,
        "resync.service"@ != "--unset-all"@,
        "resync.projectId"@ != "--unset-all"@,
        "resync.checkoutId"@ != "--unset-all"@,
        "--unset-all"@ != "--get"@,
{
    reveal_strlit("resync.service");
    reveal_strlit("resync.projectId");
    reveal_strlit("resync.checkoutId");
    reveal_strlit("--get");
    reveal_strlit("--unset-all");
    assert("resync.service"@.len() == 14);
    assert("resync.projectId"@.len() == 16);
    assert("resync.checkoutId"@.len() == 17);
    assert("--get"@.len() == 5);
    assert("--unset-all"@.len() == 11);
}

/// An identity that was written to the settings of a repository is read back, wherever its origin
/// is its own origin. What is written has no whitespace at its ends.
pub proof fn law_written_identity_is_read(
    settings: Map<Seq<char>, Seq<char>>,
    root: Seq<char>,
    origin: Seq<char>,
    project_id: Seq<char>,
    checkout_id: Seq<char>,
    done: Seq<RunResultView>,
)
    requires
        credentials::is_own_origin(origin),
        is_reading(
            settings_replayed(settings, write_calls(root, origin, project_id, checkout_id)),
            root,
            done,
        ),
        text::is_tight(project_id),
        text::is_tight(checkout_id),
    ensures
        setting(done[1]) == Some(origin),
        reads(
            done,
            (IdentityView {
                root,
                service: Some(origin),
                project_id: Some(project_id),
                checkout_id: Some(checkout_id),
            }),
        ),
{
    let calls = write_calls(root, origin, project_id, checkout_id);
    lemma_setting_names();
    assert(calls.drop_last().drop_last().drop_last() =~= Seq::empty());
    reveal_with_fuel(settings_replayed, 4);
    text::lemma_trim_line(origin);
    text::lemma_trim_line(project_id);
    text::lemma_trim_line(checkout_id);
}

/// A repository without these settings, such as a new clone, has no identity.
pub proof fn law_clone_has_no_identity(
    settings: Map<Seq<char>, Seq<char>>,
    root: Seq<char>,
    done: Seq<RunResultView>,
)
    requires
        !settings.contains_key("resync.service"@),
        !settings.contains_key("resync.projectId"@),
        !settings.contains_key("resync.checkoutId"@),
        is_reading(settings, root, done),
    ensures
        setting(done[1]) is None,
        identity_read(done, None) == (IdentityView {
            root,
            service: None,
            project_id: None,
            checkout_id: None,
        }),
{
}

/// Removing an identity takes its three settings away, whichever were there, and leaves the others;
/// doing so again changes nothing.
pub proof fn law_clearing_is_final(settings: Map<Seq<char>, Seq<char>>, root: Seq<char>)
    ensures
        ({
            let now = settings_replayed(settings, clear_calls(root));
            &&& now == settings.remove("resync.service"@).remove("resync.projectId"@).remove(
                "resync.checkoutId"@,
            )
            &&& settings_replayed(now, clear_calls(root)) == now
            &&& forall|i: int|
                0 <= i < clear_calls(root).len() ==> (#[trigger] clear_calls(
                    root,
                )[i]).options.allow_failure
        }),
{
    let calls = clear_calls(root);
    lemma_setting_names();
    assert(calls.drop_last().drop_last().drop_last() =~= Seq::empty());
    reveal_with_fuel(settings_replayed, 4);
    let now = settings_replayed(settings, calls);
    assert(settings_replayed(now, calls) =~= now);
}

} // verus!
