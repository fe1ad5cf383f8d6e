use vstd::prelude::*;

use crate::model::{ManifestEntry, McpScope};
use crate::project::ProjectStore;
use crate::repository::RepositoryStore;

verus! {

/// What `add_to_project` answers an agent: success or refusal, as text.
pub open spec fn add_to_project_refused(
    scope: McpScope,
    resolves: bool,
    has_project: bool,
    listed: bool,
    name: Seq<char>,
) -> Option<Seq<char>> {
    if scope != McpScope::ReadWrite {
        Some("MCP server is in read-only mode. Set mcp_scope to 'read_write' in config."@)
    } else if !resolves {
        Some("Reference '"@ + name + "' not found in central repository."@)
    } else if !has_project {
        Some("No project manifest found. Run `refstore init` first."@)
    } else if listed {
        Some("Failed to add '"@ + name + "': "@ + "reference '"@ + name + "' already exists in repository"@)
    } else {
        None
    }
}

/// Adds `name` with a plain entry to the open project, for an agent:
/// refused unless the scope allows writes, `name` resolves, a project is
/// open and does not list `name` yet.  The caller saves the manifest.
pub fn add_to_project(
    scope: McpScope,
    repo: &RepositoryStore,
    project: &mut Option<ProjectStore>,
    name: &str,
) -> (r: Result<String, String>)
    requires
        repo.wf(),
        (*old(project)) matches Some(p) ==> p.wf(),
    ensures
        (*final(project)) matches Some(p) ==> p.wf(),
        match add_to_project_refused(
            scope,
            repo.resolves(name@),
            (*old(project)) is Some,
            (*old(project)) matches Some(p) && p.entries().contains_key(name@),
            name@,
        ) {
            Some(t) => r matches Err(e) && e@ == t && *final(project) == *old(project),
            None => r matches Ok(m) && m@ == "Added '"@ + name@ + "' to project manifest. Run `refstore sync` to fetch content."@
                && ((*old(project)) matches Some(prior) && (*final(project)) matches Some(current)
                    && current.entries().dom() == prior.entries().dom().insert(name@)
                    && current.entries()[name@].is_plain()
                    && current.entries().remove(name@) == prior.entries().remove(name@)
                    && current.bundle_names() == prior.bundle_names()
                    && current.root_view() == prior.root_view()),
        },
{
    if scope != McpScope::ReadWrite {
        return Err(String::from_str("MCP server is in read-only mode. Set mcp_scope to 'read_write' in config."));
    }
    if repo.get(name).is_none() {
        let mut e = String::from_str("Reference '");
        e.append(name);
        e.append("' not found in central repository.");
        return Err(e);
    }
    match project {
        None => Err(String::from_str("No project manifest found. Run `refstore init` first.")),
        Some(p) => {
            let entry = ManifestEntry::plain();
            match p.add_reference(String::from_str(name), entry) {
                Ok(()) => {
                    assert(p.entries().dom() =~= old(project)->Some_0.entries().dom().insert(name@));
                    assert(p.entries().remove(name@) =~= old(project)->Some_0.entries().remove(name@));
                    let mut m = String::from_str("Added '");
                    m.append(name);
                    m.append("' to project manifest. Run `refstore sync` to fetch content.");
                    Ok(m)
                },
                Err(err) => {
                    let mut m = String::from_str("Failed to add '");
                    m.append(name);
                    m.append("': ");
                    let t = err.message();
                    m.append(t.as_str());
                    Err(m)
                },
            }
        },
    }
}

} // verus!
