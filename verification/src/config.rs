//! What a project demands of a commit before it is published.
use vstd::prelude::*;
use crate::paths;
use crate::text;
use crate::paths::join_path;
use crate::text::copy_list;

verus! {

/// The settings that a new project starts with.
pub const DEFAULT_PROJECT_CONFIG: &'static str = "version = 1\n\n# Run commands against the exact commit before RepoSync publishes it. Keep this\n# file committed so every checkout applies the same publication policy.\n#\n# [[validation]]\n# command = [\"cargo\", \"test\", \"--locked\"]\n";

/// The file that holds the settings of a project.
pub fn ensure_project_config(project_path: &str) -> (r: String)
    ensures
        r@ == paths::joined(project_path@, ".resync.toml"@),
{
    join_path(project_path, ".resync.toml")
}

/// The commands that a commit must pass.
#[derive(Debug, Clone, Default, PartialEq, Eq)]
pub struct ProjectConfig {
    pub validations: Vec<Vec<String>>,
}

/// The contents of a list of commands.
pub open spec fn command_views(list: Seq<Vec<String>>) -> Seq<Seq<Seq<char>>> {
    list.map_values(|c: Vec<String>| text::views(c@))
}

/// Takes the commands of a settings file in the order in which they are declared, without those
/// that have no words.
pub fn read_project_config(commands: Vec<Vec<String>>) -> (r: ProjectConfig)
    ensures
        command_views(r.validations@) == command_views(commands@).filter(
            |c: Seq<Seq<char>>| c.len() > 0,
        ),
{
    let ghost all = command_views(commands@);
    let ghost keep = |c: Seq<Seq<char>>| c.len() > 0;
    let mut validations: Vec<Vec<String>> = Vec::new();
    let mut i: usize = 0;
    assert(all.take(0) =~= Seq::empty());
    assert(all.take(0).filter(keep) =~= Seq::empty()) by {
        reveal(Seq::filter);
    }
    while i < commands.len()
        invariant
            0 <= i <= commands.len(),
            all == command_views(commands@),
            keep == (|c: Seq<Seq<char>>| c.len() > 0),
            command_views(validations@) == all.take(i as int).filter(keep),
        decreases commands.len() - i,
    {
        let ghost next = all.take(i + 1);
        assert(next.drop_last() =~= all.take(i as int));
        assert(next.last() == text::views(commands@[i as int]@));
        reveal(Seq::filter);
        let ghost before = validations@;
        if commands[i].len() > 0 {
            validations.push(copy_list(&commands[i]));
            assert(command_views(validations@) =~= command_views(before).push(next.last()));
        }
        i += 1;
    }
    assert(all.take(i as int) =~= all);
    ProjectConfig { validations }
}

} // verus!
